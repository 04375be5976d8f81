use loreweaver::commands::types::{EntityScopedInput, GetChildrenInput, ListByCampaignInput, SearchInput};

#[test]
fn types_export_bindings() {
    let list = ListByCampaignInput { campaign_id: "c-1".to_string() };
    let children = GetChildrenInput { parent_id: "l-1".to_string() };
    let scoped = EntityScopedInput {
        entity_type: "character".to_string(),
        entity_id: "x-1".to_string(),
    };
    let search = SearchInput {
        campaign_id: "c-1".to_string(),
        query: "gandalf".to_string(),
        entity_types: None,
        limit: None,
    };
    assert_eq!(list.campaign_id, "c-1");
    assert_eq!(children.parent_id, "l-1");
    assert_eq!(scoped.entity_type, "character");
    assert_eq!(scoped.entity_id, "x-1");
    assert_eq!(search.campaign_id, "c-1");
    assert_eq!(search.query, "gandalf");
    assert!(search.entity_types.is_none());
    assert!(search.limit.is_none());
}
