use loreweaver::commands::search::{
    build_fts_query, collect_results, effective_limit, search_request, SearchRow, DEFAULT_LIMIT,
};

#[test]
fn fts_query_splits_on_every_kind_of_whitespace() {
    assert_eq!(build_fts_query("a\tb\nc\r\nd"), "a* b* c* d*");
    assert_eq!(build_fts_query("\u{3000}dragon\u{a0}lair\u{2003}"), "dragon* lair*");
    assert_eq!(build_fts_query("  lead and trail  "), "lead* and* trail*");
}

#[test]
fn fts_query_keeps_what_is_no_whitespace() {
    assert_eq!(build_fts_query("zero\u{200b}width"), "zero\u{200b}width*");
    assert_eq!(build_fts_query("naïve café"), "naïve* café*");
    assert_eq!(build_fts_query("a*b"), "a*b*");
}

#[test]
fn fts_query_drops_quotes_inside_and_around_words() {
    assert_eq!(build_fts_query("\"\""), "*");
    assert_eq!(build_fts_query("say \"hi\" now"), "say* hi* now*");
    assert_eq!(build_fts_query("o\"neil"), "oneil*");
    assert_eq!(build_fts_query("\" \""), "* *");
}

#[test]
fn fts_query_prefix_example() {
    assert_eq!(build_fts_query("Ga"), "Ga*");
}

#[test]
fn default_limit_is_fifty() {
    assert_eq!(DEFAULT_LIMIT, 50);
    assert_eq!(effective_limit(None), 50);
    assert_eq!(effective_limit(Some(3)), 3);
    assert_eq!(effective_limit(Some(0)), 0);
    assert_eq!(effective_limit(Some(u64::MAX)), u64::MAX);
}

#[test]
fn search_request_carries_query_campaign_and_limit() {
    let request = search_request(
        "camp-1".to_string(),
        "gandalf \"the grey\"".to_string(),
        Some(vec!["character".to_string()]),
        None,
    );
    assert_eq!(request.match_expression, "gandalf* the* grey*");
    assert_eq!(request.campaign_id, "camp-1");
    assert_eq!(request.limit, 50);

    let limited = search_request("camp-2".to_string(), "x".to_string(), None, Some(3));
    assert_eq!(limited.match_expression, "x*");
    assert_eq!(limited.campaign_id, "camp-2");
    assert_eq!(limited.limit, 3);
}

#[test]
fn search_request_of_an_empty_query_has_an_empty_expression() {
    let request = search_request("camp-1".to_string(), "   ".to_string(), None, None);
    assert_eq!(request.match_expression, "");
}

fn row(
    kind: Option<&str>,
    id: Option<&str>,
    name: Option<&str>,
    snippet: Option<&str>,
    rank: Option<f64>,
) -> SearchRow {
    row_in(Some("camp"), kind, id, name, snippet, rank)
}

fn row_in(
    campaign: Option<&str>,
    kind: Option<&str>,
    id: Option<&str>,
    name: Option<&str>,
    snippet: Option<&str>,
    rank: Option<f64>,
) -> SearchRow {
    SearchRow {
        entity_type: kind.map(|s| s.to_string()),
        entity_id: id.map(|s| s.to_string()),
        campaign_id: campaign.map(|s| s.to_string()),
        name: name.map(|s| s.to_string()),
        snippet: snippet.map(|s| s.to_string()),
        rank_bits: rank.map(|r| r.to_bits()),
    }
}

fn camp() -> String {
    "camp".to_string()
}

#[test]
fn collect_results_keeps_complete_rows_in_order() {
    let rows = vec![
        row(Some("character"), Some("c1"), Some("Gandalf"), Some("a <mark>wizard</mark>"), Some(-1.5)),
        row(Some("location"), Some("l1"), Some("Shire"), None, Some(-0.25)),
    ];
    let results = collect_results(rows, &camp(), 50);
    assert_eq!(results.len(), 2);
    assert_eq!(results[0].entity_type, "character");
    assert_eq!(results[0].entity_id, "c1");
    assert_eq!(results[0].name, "Gandalf");
    assert_eq!(results[0].snippet, Some("a <mark>wizard</mark>".to_string()));
    assert_eq!(f64::from_bits(results[0].rank_bits), -1.5);
    assert_eq!(results[1].entity_type, "location");
    assert_eq!(results[1].snippet, None);
    assert_eq!(f64::from_bits(results[1].rank_bits), -0.25);
}

#[test]
fn collect_results_leaves_out_rows_with_a_missing_column() {
    let rows = vec![
        row(None, Some("c1"), Some("A"), None, Some(0.0)),
        row(Some("character"), None, Some("B"), None, Some(0.0)),
        row(Some("character"), Some("c3"), None, None, Some(0.0)),
        row(Some("character"), Some("c4"), Some("D"), Some("s"), None),
        row_in(None, Some("character"), Some("c6"), Some("F"), None, Some(-1.0)),
        row(Some("character"), Some("c5"), Some("E"), None, Some(-2.0)),
    ];
    let results = collect_results(rows, &camp(), 50);
    assert_eq!(results.len(), 1);
    assert_eq!(results[0].entity_id, "c5");
    assert_eq!(results[0].name, "E");
}

#[test]
fn collect_results_of_nothing_is_nothing() {
    assert!(collect_results(vec![], &camp(), 50).is_empty());
}

#[test]
fn collect_results_keeps_the_campaign_that_was_searched() {
    let rows = vec![
        row_in(Some("one"), Some("character"), Some("a"), Some("Gandalf"), None, Some(-1.0)),
        row_in(Some("two"), Some("character"), Some("b"), Some("Gandalf"), None, Some(-1.0)),
    ];
    let in_one = collect_results(rows, &"one".to_string(), 50);
    assert_eq!(in_one.len(), 1);
    assert_eq!(in_one[0].entity_id, "a");
    let rows = vec![
        row_in(Some("one"), Some("character"), Some("a"), Some("Gandalf"), None, Some(-1.0)),
        row_in(Some("two"), Some("character"), Some("b"), Some("Gandalf"), None, Some(-1.0)),
    ];
    let in_two = collect_results(rows, &"two".to_string(), 50);
    assert_eq!(in_two.len(), 1);
    assert_eq!(in_two[0].entity_id, "b");
    assert_ne!(in_one[0].entity_id, in_two[0].entity_id);
}

fn many(n: usize) -> Vec<SearchRow> {
    (0..n)
        .map(|i| row(Some("character"), Some(&format!("c{}", i)), Some("Dragon"), None, Some(-(i as f64))))
        .collect()
}

#[test]
fn collect_results_returns_no_more_than_the_limit() {
    let three = collect_results(many(10), &camp(), 3);
    assert_eq!(three.len(), 3);
    assert_eq!(three[0].entity_id, "c0");
    assert_eq!(three[2].entity_id, "c2");
    assert_eq!(collect_results(many(60), &camp(), effective_limit(None)).len(), 50);
    assert_eq!(collect_results(many(10), &camp(), 0).len(), 0);
    assert_eq!(collect_results(many(10), &camp(), 10).len(), 10);
    assert_eq!(collect_results(many(10), &camp(), u64::MAX).len(), 10);
}
