use wicli::search::{
    LoadOutcome, RootListing, Search, SearchError, TraversalEntry, content_of, is_eligible,
};

fn file(content: &str) -> TraversalEntry {
    TraversalEntry::File(LoadOutcome::Loaded(content.to_string()))
}

/// One root laid out like the fixture the original tool was exercised
/// against: three folders `a/`, `b/`, `c/`, each holding `d.txt`, `e.txt`
/// and `f.txt` whose content is the file's name followed by `.test`, as a
/// traversal observes it (the root and folder directories included).
fn fake_source_listing() -> RootListing {
    let mut entries = vec![TraversalEntry::Directory];
    for _folder in 0..3 {
        entries.push(TraversalEntry::Directory);
        entries.push(file("d.txt.test"));
        entries.push(file("e.txt.test"));
        entries.push(file("f.txt.test"));
    }
    RootListing { entries }
}

#[test]
fn it_returns_the_results() {
    let roots = vec![fake_source_listing()];

    let result = Search::by_term(&roots, "d.txt.test").unwrap();

    assert_eq!(result, vec!["d.txt.test", "d.txt.test", "d.txt.test"]);
}

#[test]
fn it_returns_an_empty_vec_when_there_are_no_results() {
    let roots = vec![fake_source_listing()];

    let result = Search::by_term(&roots, "Can't find this").unwrap();

    assert_eq!(result, Vec::<String>::new());
}

#[test]
#[should_panic(expected = "NoSourcesConfigured")]
fn it_panics_when_there_are_no_sources() {
    let roots: Vec<RootListing> = Vec::new();

    Search::by_term(&roots, "test").unwrap();
}

#[test]
fn no_sources_is_a_declared_error() {
    let roots: Vec<RootListing> = Vec::new();

    let result = Search::by_term(&roots, "anything");

    assert_eq!(result, Err(SearchError::NoSourcesConfigured));
}

#[test]
fn three_sibling_roots_yield_exactly_three_matches() {
    let root = |main: &str| RootListing {
        entries: vec![file(main), file("e.txt.test"), file("f.txt.test")],
    };
    let roots = vec![root("d.txt.test"), root("d.txt.test"), root("d.txt.test")];

    let result = Search::by_term(&roots, "d.txt.test").unwrap();
    assert_eq!(result, vec!["d.txt.test", "d.txt.test", "d.txt.test"]);

    let empty = Search::by_term(&roots, "nonexistent-term").unwrap();
    assert_eq!(empty, Vec::<String>::new());
}

#[test]
fn unreadable_entries_do_not_suppress_other_matches() {
    let roots = vec![
        RootListing {
            entries: vec![
                file("alpha match"),
                TraversalEntry::Unreadable,
                TraversalEntry::File(LoadOutcome::Failed),
                TraversalEntry::Directory,
                file("beta match"),
            ],
        },
        RootListing { entries: vec![file("gamma match")] },
    ];

    let result = Search::by_term(&roots, "match").unwrap();

    assert_eq!(result, vec!["alpha match", "beta match", "gamma match"]);
}

#[test]
fn empty_term_returns_every_readable_file() {
    let roots = vec![RootListing {
        entries: vec![TraversalEntry::Directory, file("one"), file(""), file("two")],
    }];

    let result = Search::by_term(&roots, "").unwrap();

    assert_eq!(result, vec!["one", "", "two"]);
}

#[test]
fn empty_term_includes_a_failed_load_as_empty_content() {
    let roots = vec![RootListing {
        entries: vec![file("one"), TraversalEntry::File(LoadOutcome::Failed)],
    }];

    let result = Search::by_term(&roots, "").unwrap();

    assert_eq!(result, vec!["one", ""]);
}

#[test]
fn duplicate_contents_are_both_reported() {
    let roots = vec![
        RootListing { entries: vec![file("same text"), file("same text")] },
        RootListing { entries: vec![file("same text")] },
    ];

    let result = Search::by_term(&roots, "same").unwrap();

    assert_eq!(result, vec!["same text", "same text", "same text"]);
}

#[test]
fn only_regular_files_are_eligible() {
    assert!(is_eligible(&file("anything")));
    assert!(is_eligible(&TraversalEntry::File(LoadOutcome::Failed)));
    assert!(!is_eligible(&TraversalEntry::Directory));
    assert!(!is_eligible(&TraversalEntry::Unreadable));
}

#[test]
fn a_failed_load_degrades_to_empty_content() {
    assert_eq!(content_of(&LoadOutcome::Loaded("text".to_string())), "text");
    assert_eq!(content_of(&LoadOutcome::Failed), "");
}
