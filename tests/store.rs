use launcher::{parse_desktop_entries, AppEntry, Descriptor, EntryKind};

fn strings(v: &[&str]) -> Vec<String> {
    v.iter().map(|s| s.to_string()).collect()
}

fn descriptor(kind: EntryKind, name: &str, command: Option<&str>, keywords: &[&str]) -> Descriptor {
    Descriptor {
        kind,
        name: name.to_string(),
        command: command.map(|c| c.to_string()),
        keywords: strings(keywords),
        categories: strings(&["Utility"]),
    }
}

#[test]
fn new_entry_keeps_its_fields() {
    let e = AppEntry::new(
        "Firefox".to_string(),
        "/usr/bin/firefox".to_string(),
        strings(&["web", "browser"]),
        strings(&["Network"]),
    );
    assert_eq!(e.name(), "Firefox");
    assert_eq!(e.command(), "/usr/bin/firefox");
    assert_eq!(e.keywords(), &strings(&["web", "browser"]));
    assert_eq!(e.categories(), &strings(&["Network"]));
    assert_eq!(e.score(), None);
    assert!(e.fits_matcher());
}

#[test]
fn store_leaves_out_entries_without_command() {
    let ds = vec![
        descriptor(EntryKind::Application, "Broken", None, &["x"]),
        descriptor(EntryKind::Application, "Editor", Some("gedit"), &["text"]),
        descriptor(EntryKind::Application, "Ghost", None, &[]),
    ];
    let store = parse_desktop_entries(&ds);
    assert_eq!(store.len(), 1);
    assert_eq!(store[0].name(), "Editor");
    assert_eq!(store[0].command(), "gedit");
    assert_eq!(store[0].keywords(), &strings(&["text"]));
    assert_eq!(store[0].categories(), &strings(&["Utility"]));
}

#[test]
fn store_keeps_only_applications_in_order() {
    let ds = vec![
        descriptor(EntryKind::Link, "Homepage", Some("xdg-open"), &[]),
        descriptor(EntryKind::Application, "Files", Some("/usr/bin/nautilus"), &[]),
        descriptor(EntryKind::Directory, "Games", Some("games"), &[]),
        descriptor(EntryKind::Unknown, "Odd", Some("odd"), &[]),
        descriptor(EntryKind::Application, "Firefox", Some("/usr/bin/firefox"), &[]),
    ];
    let store = parse_desktop_entries(&ds);
    let names: Vec<&str> = store.iter().map(|e| e.name()).collect();
    assert_eq!(names, vec!["Files", "Firefox"]);
    for e in &store {
        assert!(!e.command().is_empty());
    }
}

#[test]
fn store_of_nothing_is_empty() {
    let store = parse_desktop_entries(&Vec::new());
    assert!(store.is_empty());
}

#[test]
fn default_config_scans_system_applications() {
    let config = launcher::Config::new();
    assert_eq!(config.directories, vec!["/usr/share/applications".to_string()]);
}

#[test]
fn default_entry_is_empty_and_unscored() {
    let e = AppEntry::default();
    assert_eq!(e.name(), "");
    assert_eq!(e.command(), "");
    assert!(e.keywords().is_empty());
    assert!(e.categories().is_empty());
    assert_eq!(e.score(), None);
}
