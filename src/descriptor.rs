use crate::entry::{texts_of, AppEntry, EntryView};
use crate::ranking::views;
use freedesktop_file_parser::EntryType;
use vstd::prelude::*;

verus! {

/// The type of a desktop descriptor.
#[derive(Clone, Copy, Debug, PartialEq, Eq, Structural)]
pub enum EntryKind {
    Application,
    Link,
    Directory,
    Unknown,
}

/// A parsed desktop descriptor, as far as the entry store reads it.
pub struct Descriptor {
    pub kind: EntryKind,
    pub name: String,
    pub command: Option<String>,
    pub keywords: Vec<String>,
    pub categories: Vec<String>,
}

/// What a descriptor holds, as a mathematical value.
pub struct DescriptorView {
    pub kind: EntryKind,
    pub name: Seq<char>,
    pub command: Option<Seq<char>>,
    pub keywords: Seq<Seq<char>>,
    pub categories: Seq<Seq<char>>,
}

impl View for Descriptor {
    type V = DescriptorView;

    open spec fn view(&self) -> DescriptorView {
        DescriptorView {
            kind: self.kind,
            name: self.name@,
            command: match self.command {
                Some(c) => Some(c@),
                None => None,
            },
            keywords: texts_of(self.keywords@),
            categories: texts_of(self.categories@),
        }
    }
}

/// The descriptor that freedesktop_file_parser reads from the text of a
/// desktop file, or `None` where the text does not parse.
pub uninterp spec fn parsed_descriptor(text: Seq<char>) -> Option<DescriptorView>;

/// Relies on freedesktop_file_parser::parse: the descriptor of a desktop
/// file's text, which depends on the text alone. The default name and
/// keywords are taken; fields that an application does not give are empty.
#[verifier::external_body]
fn parse_descriptor(text: &str) -> (r: Option<Descriptor>)
    ensures
        r matches Some(d) ==> parsed_descriptor(text@) == Some(d@),
        r is None ==> parsed_descriptor(text@) is None,
{
    let entry = freedesktop_file_parser::parse(text).ok()?.entry;
    let (kind, app) = match entry.entry_type {
        EntryType::Application(app) => (EntryKind::Application, app),
        EntryType::Link(_) => (EntryKind::Link, Default::default()),
        EntryType::Directory => (EntryKind::Directory, Default::default()),
        EntryType::Unknown => (EntryKind::Unknown, Default::default()),
    };
    let keywords = app.keywords.map(|k| k.default).unwrap_or_default();
    let categories = app.categories.unwrap_or_default();
    Some(Descriptor { kind, name: entry.name.default, command: app.exec, keywords, categories })
}

/// The descriptors of the texts that parse, in order.
pub open spec fn parsed_all(texts: Seq<Seq<char>>) -> Seq<DescriptorView>
    decreases texts.len(),
{
    if texts.len() == 0 {
        Seq::empty()
    } else {
        let init = parsed_all(texts.drop_last());
        match parsed_descriptor(texts.last()) {
            Some(d) => init.push(d),
            None => init,
        }
    }
}

/// The descriptors of a list of desktop files' texts; a text that does not
/// parse is skipped, so one corrupt file never hides the others.
pub fn parse_descriptors(texts: &Vec<String>) -> (r: Vec<Descriptor>)
    ensures
        r@.map_values(|d: Descriptor| d@) == parsed_all(texts_of(texts@)),
{
    let mut r: Vec<Descriptor> = Vec::new();
    for i in 0..texts.len()
        invariant
            r@.map_values(|d: Descriptor| d@) == parsed_all(texts_of(texts@.take(i as int))),
    {
        let ghost before = texts@.take(i as int);
        proof {
            assert(texts_of(texts@.take(i + 1)).drop_last() == texts_of(before));
            assert(texts_of(texts@.take(i + 1)).last() == texts@[i as int]@);
        }
        if let Some(d) = parse_descriptor(texts[i].as_str()) {
            let ghost old_r = r@;
            r.push(d);
            assert(r@.map_values(|d: Descriptor| d@) == old_r.map_values(|d: Descriptor| d@).push(d@));
        }
    }
    assert(texts@.take(texts@.len() as int) == texts@);
    r
}

/// Whether the descriptor is an application that can be launched.
pub open spec fn launchable(d: Descriptor) -> bool {
    d.kind is Application && d.command is Some
}

/// The unscored entry made from a launchable descriptor.
pub open spec fn entry_of(d: Descriptor) -> EntryView {
    EntryView {
        name: d.name@,
        command: d.command->0@,
        keywords: texts_of(d.keywords@),
        categories: texts_of(d.categories@),
        score: None,
    }
}

/// The entry store of a list of descriptors: one entry for each launchable
/// descriptor, in order.
pub open spec fn store_of(ds: Seq<Descriptor>) -> Seq<EntryView>
    decreases ds.len(),
{
    if ds.len() == 0 {
        Seq::empty()
    } else if launchable(ds.last()) {
        store_of(ds.drop_last()).push(entry_of(ds.last()))
    } else {
        store_of(ds.drop_last())
    }
}

/// Whether `e` is the entry of some launchable descriptor of `ds`.
pub open spec fn from_launchable(ds: Seq<Descriptor>, e: EntryView) -> bool {
    exists|j: int| 0 <= j < ds.len() && launchable(#[trigger] ds[j]) && e == entry_of(ds[j])
}

/// Every entry of a store comes from a launchable descriptor: no entry lacks
/// a command.
pub proof fn lemma_store_entries_launchable(ds: Seq<Descriptor>)
    ensures
        store_of(ds).len() <= ds.len(),
        forall|k: int| 0 <= k < store_of(ds).len() ==> from_launchable(ds, #[trigger] store_of(ds)[k]),
    decreases ds.len(),
{
    if ds.len() > 0 {
        let init = ds.drop_last();
        lemma_store_entries_launchable(init);
        assert forall|k: int| 0 <= k < store_of(ds).len() implies from_launchable(ds, #[trigger] store_of(ds)[k]) by {
            if k < store_of(init).len() {
                assert(from_launchable(init, store_of(init)[k]));
                let j = choose|j: int|
                    0 <= j < init.len() && launchable(#[trigger] init[j]) && store_of(init)[k]
                        == entry_of(init[j]);
                assert(ds[j] == init[j]);
            } else {
                assert(ds[ds.len() - 1] == ds.last());
            }
        }
    }
}

/// A copy of a list of strings.
fn copy_texts(v: &Vec<String>) -> (r: Vec<String>)
    ensures
        r@ == v@,
{
    let mut r: Vec<String> = Vec::new();
    for i in 0..v.len()
        invariant
            r@ == v@.take(i as int),
    {
        r.push(v[i].clone());
        assert(r@ == v@.take(i + 1));
    }
    assert(v@.take(v@.len() as int) == v@);
    r
}

/// Builds the entry store: every descriptor that is an application with a
/// command becomes an entry, owning copies of its text; all others are left
/// out.
pub fn parse_desktop_entries(descriptors: &Vec<Descriptor>) -> (r: Vec<AppEntry>)
    ensures
        views(r@) == store_of(descriptors@),
{
    let mut r: Vec<AppEntry> = Vec::new();
    for i in 0..descriptors.len()
        invariant
            views(r@) == store_of(descriptors@.take(i as int)),
    {
        let d = &descriptors[i];
        let ghost before = descriptors@.take(i as int);
        proof {
            assert(descriptors@.take(i + 1).drop_last() == before);
            assert(descriptors@.take(i + 1).last() == *d);
        }
        if let (EntryKind::Application, Some(command)) = (d.kind, &d.command) {
            let e = AppEntry::new(
                d.name.clone(),
                command.clone(),
                copy_texts(&d.keywords),
                copy_texts(&d.categories),
            );
            let ghost old_r = r@;
            r.push(e);
            assert(views(r@) == views(old_r).push(e@));
        }
    }
    assert(descriptors@.take(descriptors@.len() as int) == descriptors@);
    r
}

} // verus!
