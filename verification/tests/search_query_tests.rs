use loreweaver::commands::search::build_fts_query;

#[test]
fn test_fts_query_adds_prefix_wildcard() {
    let result = build_fts_query("gandalf wizard");
    assert_eq!(result, "gandalf* wizard*");
}

#[test]
fn test_fts_query_removes_quotes() {
    let result = build_fts_query(r#"gandalf "the grey""#);
    assert_eq!(result, "gandalf* the* grey*");
}

#[test]
fn test_fts_query_handles_empty_string() {
    let result = build_fts_query("");
    assert_eq!(result, "");
}

#[test]
fn test_fts_query_handles_whitespace_only() {
    let result = build_fts_query("   ");
    assert_eq!(result, "");
}

#[test]
fn test_fts_query_normalizes_multiple_spaces() {
    let result = build_fts_query("gandalf    wizard");
    assert_eq!(result, "gandalf* wizard*");
}

#[test]
fn test_fts_query_single_word() {
    let result = build_fts_query("dragon");
    assert_eq!(result, "dragon*");
}
