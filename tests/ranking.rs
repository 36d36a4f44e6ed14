use launcher::{parse_desktop_entries, AppEntry, Descriptor, EntryKind, LauncherState, Ranker};

fn strings(v: &[&str]) -> Vec<String> {
    v.iter().map(|s| s.to_string()).collect()
}

fn entry(name: &str, command: &str, keywords: &[&str]) -> AppEntry {
    AppEntry::new(name.to_string(), command.to_string(), strings(keywords), Vec::new())
}

fn browsers() -> Vec<AppEntry> {
    vec![
        entry("Firefox", "/usr/bin/firefox", &["web", "browser"]),
        entry("Files", "/usr/bin/nautilus", &["browser", "manager"]),
    ]
}

#[test]
fn fire_ranks_firefox_alone() {
    let mut store = browsers();
    let mut ranker = Ranker::new();
    let r = ranker.rank(&mut store, "fire");
    assert_eq!(r, vec![0]);
    assert!(store[0].score().unwrap() > 0);
    assert_eq!(store[1].score(), None);
}

#[test]
fn browser_ties_keep_store_order() {
    let mut store = browsers();
    let mut ranker = Ranker::new();
    let r = ranker.rank(&mut store, "browser");
    assert_eq!(r, vec![0, 1]);
    assert!(store[0].score().unwrap() > 0);
    assert_eq!(store[0].score(), store[1].score());
}

#[test]
fn empty_store_ranks_nothing() {
    let mut store: Vec<AppEntry> = Vec::new();
    let mut ranker = Ranker::new();
    assert!(ranker.rank(&mut store, "fire").is_empty());
    assert!(ranker.rank(&mut store, "").is_empty());
}

#[test]
fn scores_descend_along_results() {
    let mut store = vec![
        entry("Terminal", "term", &["shell"]),
        entry("Text Editor", "gedit", &["text", "editor"]),
        entry("Tetris", "tetris", &["game"]),
        entry("Calculator", "calc", &["math"]),
        entry("Settings", "settings", &["text"]),
    ];
    let mut ranker = Ranker::new();
    let r = ranker.rank(&mut store, "te");
    assert!(r.len() >= 2);
    for w in r.windows(2) {
        let a = store[w[0]].score().unwrap();
        let b = store[w[1]].score().unwrap();
        assert!(a > b || (a == b && w[0] < w[1]));
    }
    for (i, e) in store.iter().enumerate() {
        assert_eq!(e.score().is_some(), r.contains(&i));
    }
}

#[test]
fn name_match_weighs_five_keyword_matches() {
    let mut store = vec![entry("browser", "a", &[]), entry("Zzz", "b", &["browser"])];
    let mut ranker = Ranker::new();
    let r = ranker.rank(&mut store, "browser");
    let a = store[0].score().unwrap();
    let b = store[1].score().unwrap();
    assert!(b > 0);
    assert_eq!(a, 5 * b);
    assert_eq!(r, vec![0, 1]);
}

#[test]
fn ranking_twice_gives_the_same_results() {
    let mut store = browsers();
    store.push(entry("Web Browser", "epiphany", &["internet"]));
    let mut ranker = Ranker::new();
    let first = ranker.rank(&mut store, "bro");
    let scores: Vec<Option<u128>> = store.iter().map(|e| e.score()).collect();
    let second = ranker.rank(&mut store, "bro");
    assert_eq!(first, second);
    let again: Vec<Option<u128>> = store.iter().map(|e| e.score()).collect();
    assert_eq!(scores, again);
}

#[test]
fn unmatched_entries_are_left_out() {
    let mut store = browsers();
    store.push(entry("Calculator", "calc", &["math"]));
    let mut ranker = Ranker::new();
    let r = ranker.rank(&mut store, "math");
    assert_eq!(r, vec![2]);
    let r = ranker.rank(&mut store, "qqqq");
    assert!(r.is_empty());
    assert!(store.iter().all(|e| e.score().is_none()));
}

#[test]
fn empty_query_keeps_every_entry_in_order() {
    let mut store = browsers();
    let mut ranker = Ranker::new();
    let r = ranker.rank(&mut store, "");
    assert_eq!(r, vec![0, 1]);
    assert_eq!(store[0].score(), Some(0));
    assert_eq!(store[1].score(), Some(0));
}

#[test]
fn later_query_replaces_score() {
    let mut store = browsers();
    let mut ranker = Ranker::new();
    ranker.rank(&mut store, "fire");
    assert!(store[0].score().is_some());
    ranker.rank(&mut store, "nothing-like-it");
    assert_eq!(store[0].score(), None);
}

#[test]
fn entry_without_command_never_ranks() {
    let ds = vec![
        Descriptor {
            kind: EntryKind::Application,
            name: "Firefox".to_string(),
            command: None,
            keywords: strings(&["web"]),
            categories: Vec::new(),
        },
        Descriptor {
            kind: EntryKind::Application,
            name: "Files".to_string(),
            command: Some("/usr/bin/nautilus".to_string()),
            keywords: Vec::new(),
            categories: Vec::new(),
        },
    ];
    let mut store = parse_desktop_entries(&ds);
    let mut ranker = Ranker::new();
    for q in ["", "fire", "f", "web"] {
        let r = ranker.rank(&mut store, q);
        assert!(r.iter().all(|&i| store[i].name() == "Files"));
    }
}

#[test]
fn launcher_state_searches() {
    let mut state = LauncherState::new(browsers());
    assert_eq!(state.query(), "");
    assert_eq!(state.results(), &vec![0, 1]);
    state.search("fire".to_string());
    assert_eq!(state.query(), "fire");
    assert_eq!(state.results(), &vec![0]);
    assert_eq!(state.entries()[0].name(), "Firefox");
    state.search("browser".to_string());
    assert_eq!(state.results(), &vec![0, 1]);
}

#[test]
fn compute_score_weights_name_and_keywords() {
    let mut ranker = Ranker::new();
    let mut both = entry("browser", "a", &["browser"]);
    let mut kw = entry("Zzz", "b", &["browser"]);
    both.compute_score(&mut ranker, "browser");
    kw.compute_score(&mut ranker, "browser");
    assert_eq!(both.score().unwrap(), 6 * kw.score().unwrap());
}

#[test]
fn combining_marks_match_their_base_letter() {
    // "Cafe\u{301}" is five code points, four graphemes.
    let mut store = vec![entry("Cafe\u{301}", "cafe", &[])];
    let mut ranker = Ranker::new();
    assert_eq!(ranker.rank(&mut store, "cafe$"), vec![0]);
}

#[test]
fn long_query_within_bound_scores_without_overflow() {
    let word = "a".repeat(launcher::MAX_QUERY_CHARS);
    let mut store = vec![entry(&word, "a", &[])];
    let mut ranker = Ranker::new();
    assert_eq!(ranker.rank(&mut store, &word), vec![0]);
    assert!(store[0].score().unwrap() > 0);
}
