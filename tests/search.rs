use doc_search::document::{DocumentPreview, StoredDocument};
use doc_search::search::{
    find_matching_tags, has_any_tag, search, search_by_tags, search_combined, search_in_text,
    select_tags, Query, SearchPlan,
};
use doc_search::text::{contains_ignoring_case, escape_regex, find_run, lowered_chars};

fn s(x: &str) -> String {
    x.to_string()
}

fn doc(uuid: &str, title: &str, tags: &[&str], short: &str, transcription: &str) -> StoredDocument {
    StoredDocument {
        uuid: s(uuid),
        title: s(title),
        tags: tags.iter().map(|t| s(t)).collect(),
        short: s(short),
        transcription: s(transcription),
    }
}

fn store() -> Vec<StoredDocument> {
    vec![
        doc("1", "Alpha", &["cat", "dog"], "s1", "hello world"),
        doc("2", "Beta", &["dog"], "s2", "goodbye"),
    ]
}

fn uuids(r: &[DocumentPreview]) -> Vec<String> {
    r.iter().map(|p| p.uuid.clone()).collect()
}

fn tags(x: &[&str]) -> Vec<String> {
    x.iter().map(|t| s(t)).collect()
}

#[test]
fn scenario_tag_search() {
    let q = Query { text: None, tags: tags(&["cat"]) };
    assert_eq!(uuids(&search(&store(), q)), vec![s("1")]);
}

#[test]
fn scenario_text_search() {
    let q = Query { text: Some(s("hello")), tags: vec![] };
    assert_eq!(uuids(&search(&store(), q)), vec![s("1")]);
}

#[test]
fn scenario_combined_search() {
    let q = Query { text: Some(s("hello")), tags: tags(&["dog"]) };
    assert_eq!(uuids(&search(&store(), q)), vec![s("1")]);
}

#[test]
fn scenario_autocomplete() {
    assert_eq!(find_matching_tags(&store(), "do", 5), vec![s("dog")]);
}

#[test]
fn tag_search_is_any_not_all() {
    let r = search_by_tags(&store(), &tags(&["cat", "dog"]));
    assert_eq!(uuids(&r), vec![s("1"), s("2")]);
    for p in &r {
        assert!(p.tags.iter().any(|t| t == "cat" || t == "dog"));
    }
}

#[test]
fn tag_search_unknown_tag_is_empty() {
    assert!(search_by_tags(&store(), &tags(&["fish"])).is_empty());
}

#[test]
fn empty_query_is_empty() {
    let q = Query { text: None, tags: vec![] };
    assert!(search(&store(), q).is_empty());
}

#[test]
fn text_search_ignores_case() {
    assert_eq!(uuids(&search_in_text(&store(), "HeLLo")), vec![s("1")]);
    assert_eq!(uuids(&search_in_text(&store(), "GOODBYE")), vec![s("2")]);
}

#[test]
fn text_search_reads_short() {
    assert_eq!(uuids(&search_in_text(&store(), "S2")), vec![s("2")]);
}

#[test]
fn text_search_nothing_matches() {
    assert!(search_in_text(&store(), "zebra").is_empty());
}

#[test]
fn combined_search_ignores_short() {
    assert!(search_combined(&store(), "s2", &tags(&["dog"])).is_empty());
    assert_eq!(uuids(&search_combined(&store(), "GOOD", &tags(&["dog"]))), vec![s("2")]);
}

#[test]
fn combined_within_tag_and_text_results() {
    let rows = store();
    let c = uuids(&search_combined(&rows, "o", &tags(&["cat"])));
    let t = uuids(&search_by_tags(&rows, &tags(&["cat"])));
    let x = uuids(&search_in_text(&rows, "o"));
    assert_eq!(c, vec![s("1")]);
    for u in &c {
        assert!(t.contains(u) && x.contains(u));
    }
}

#[test]
fn previews_keep_fields() {
    let r = search_by_tags(&store(), &tags(&["cat"]));
    assert_eq!(r.len(), 1);
    assert_eq!(r[0].title, "Alpha");
    assert_eq!(r[0].short, "s1");
    assert_eq!(r[0].tags, tags(&["cat", "dog"]));
}

#[test]
fn results_keep_row_order() {
    let rows = vec![
        doc("3", "Aardvark", &["x"], "", "t"),
        doc("4", "Zebra", &["x"], "", "t"),
        doc("5", "Middle", &["y"], "", "t"),
    ];
    assert_eq!(uuids(&search_by_tags(&rows, &tags(&["x", "y"]))), vec![s("3"), s("4"), s("5")]);
}

#[test]
fn repeated_query_same_result() {
    let rows = store();
    let a = uuids(&search_in_text(&rows, "o"));
    let b = uuids(&search_in_text(&rows, "o"));
    assert_eq!(a, b);
    assert_eq!(a, vec![s("1"), s("2")]);
}

#[test]
fn plan_selection() {
    let p = SearchPlan::for_query(Query { text: Some(s("a")), tags: tags(&["b"]) });
    assert!(matches!(p, SearchPlan::Combined { .. }));
    let p = SearchPlan::for_query(Query { text: Some(s("a")), tags: vec![] });
    assert!(matches!(p, SearchPlan::InText { .. }));
    let p = SearchPlan::for_query(Query { text: None, tags: tags(&["b"]) });
    assert!(matches!(p, SearchPlan::ByTags { .. }));
}

#[test]
fn autocomplete_dedups_and_limits() {
    let c = tags(&["Dog", "dog", "cat", "dog", "doge", "hotdog"]);
    assert_eq!(select_tags(&c, "DO", 10), tags(&["Dog", "dog", "doge", "hotdog"]));
    assert_eq!(select_tags(&c, "do", 2), tags(&["Dog", "dog"]));
    assert!(select_tags(&c, "do", 0).is_empty());
    assert!(select_tags(&c, "fish", 5).is_empty());
}

#[test]
fn autocomplete_over_documents() {
    let rows = vec![
        doc("1", "A", &["rust", "verus"], "", ""),
        doc("2", "B", &["Rust", "rust"], "", ""),
    ];
    assert_eq!(find_matching_tags(&rows, "RUST", 5), tags(&["rust", "Rust"]));
    assert_eq!(find_matching_tags(&rows, "", 5), tags(&["rust", "verus", "Rust"]));
}

#[test]
fn case_insensitive_containment() {
    assert!(contains_ignoring_case("Hello World", "WORLD"));
    assert!(contains_ignoring_case("abc", ""));
    assert!(!contains_ignoring_case("abc", "abcd"));
    assert!(!contains_ignoring_case("abc", "x"));
}

#[test]
fn lowered_characters() {
    assert_eq!(lowered_chars("AbÇ"), vec!['a', 'b', 'ç']);
}

#[test]
fn run_search() {
    let h: Vec<char> = "banana".chars().collect();
    assert!(find_run(&h, &"nan".chars().collect()));
    assert!(find_run(&h, &vec![]));
    assert!(!find_run(&h, &"nab".chars().collect()));
    assert!(!find_run(&vec![], &vec!['a']));
}

#[test]
fn tag_sharing() {
    assert!(has_any_tag(&tags(&["a", "b"]), &tags(&["c", "b"])));
    assert!(!has_any_tag(&tags(&["a"]), &tags(&["A"])));
    assert!(!has_any_tag(&vec![], &tags(&["a"])));
}

#[test]
fn regex_escaping() {
    assert_eq!(escape_regex("a.b*c"), "a\\.b\\*c");
    assert_eq!(escape_regex("(x)[y]{z}^$|?+\\"), "\\(x\\)\\[y\\]\\{z\\}\\^\\$\\|\\?\\+\\\\");
    assert_eq!(escape_regex("plain"), "plain");
    assert_eq!(escape_regex(""), "");
}

#[test]
fn repeated_autocomplete_same_result() {
    let rows = store();
    assert_eq!(find_matching_tags(&rows, "a", 1), find_matching_tags(&rows, "a", 1));
    assert_eq!(find_matching_tags(&rows, "A", 1), vec![s("cat")]);
}
