use loreweaver::commands::campaign::{
    create_campaign_impl, delete_campaign_impl, get_campaign_impl, list_campaigns_impl,
    update_campaign_impl,
};
use loreweaver::db::Database;

#[test]
fn test_create_campaign() {
    let mut db = Database::new();

    let campaign = create_campaign_impl(
        &mut db,
        "Dragon's Lair".to_string(),
        Some("A campaign about dragons".to_string()),
        Some("D&D 5e".to_string()),
    )
    .expect("Failed to create campaign");

    assert_eq!(campaign.name, "Dragon's Lair");
    assert_eq!(campaign.description, Some("A campaign about dragons".to_string()));
    assert_eq!(campaign.system, Some("D&D 5e".to_string()));
    assert!(!campaign.id.is_empty());
}

#[test]
fn test_create_campaign_minimal() {
    let mut db = Database::new();

    let campaign = create_campaign_impl(&mut db, "Minimal Campaign".to_string(), None, None)
        .expect("Failed to create campaign");

    assert_eq!(campaign.name, "Minimal Campaign");
    assert_eq!(campaign.description, None);
    assert_eq!(campaign.system, None);
}

#[test]
fn test_get_campaign() {
    let mut db = Database::new();

    let created = create_campaign_impl(&mut db, "Test Campaign".to_string(), None, None)
        .expect("Failed to create campaign");

    let retrieved = get_campaign_impl(&db, created.id.clone())
        .expect("Failed to get campaign");

    assert_eq!(retrieved.id, created.id);
    assert_eq!(retrieved.name, "Test Campaign");
}

#[test]
fn test_get_campaign_not_found() {
    let mut db = Database::new();

    let result = get_campaign_impl(&db, "nonexistent-id".to_string());

    assert!(result.is_err());
    let err = result.unwrap_err();
    assert!(err.to_string().contains("not found"));
}

#[test]
fn test_list_campaigns_empty() {
    let mut db = Database::new();

    let campaigns = list_campaigns_impl(&db)
        .expect("Failed to list campaigns");

    assert!(campaigns.is_empty());
}

#[test]
fn test_list_campaigns_ordered_by_updated_at() {
    let mut db = Database::new();

    // Create campaigns in order
    let first = create_campaign_impl(&mut db, "First".to_string(), None, None)
        .expect("Failed to create first campaign");

    let second = create_campaign_impl(&mut db, "Second".to_string(), None, None)
        .expect("Failed to create second campaign");

    // Update first campaign so it becomes more recently updated
    update_campaign_impl(
        &mut db,
        first.id.clone(),
        Some("First Updated".to_string()),
        None,
        None,
        None,
    )
    .expect("Failed to update campaign");

    let campaigns = list_campaigns_impl(&db)
        .expect("Failed to list campaigns");

    assert_eq!(campaigns.len(), 2);
    // Most recently updated should be first (first was updated after second was created)
    assert_eq!(campaigns[0].name, "First Updated");
    assert_eq!(campaigns[1].name, "Second");
}

#[test]
fn test_update_campaign() {
    let mut db = Database::new();

    let created = create_campaign_impl(&mut db, "Original".to_string(), None, None)
        .expect("Failed to create campaign");

    let updated = update_campaign_impl(
        &mut db,
        created.id.clone(),
        Some("Updated Name".to_string()),
        Some("New description".to_string()),
        Some("Pathfinder 2e".to_string()),
        Some(r#"{"theme": "dark"}"#.to_string()),
    )
    .expect("Failed to update campaign");

    assert_eq!(updated.id, created.id);
    assert_eq!(updated.name, "Updated Name");
    assert_eq!(updated.description, Some("New description".to_string()));
    assert_eq!(updated.system, Some("Pathfinder 2e".to_string()));
    assert_eq!(updated.settings_json, Some(r#"{"theme": "dark"}"#.to_string()));
}

#[test]
fn test_update_campaign_partial() {
    let mut db = Database::new();

    let created = create_campaign_impl(
        &mut db,
        "Original".to_string(),
        Some("Original desc".to_string()),
        Some("D&D 5e".to_string()),
    )
    .expect("Failed to create campaign");

    // Only update name, leave other fields unchanged
    let updated = update_campaign_impl(
        &mut db,
        created.id.clone(),
        Some("New Name".to_string()),
        None,
        None,
        None,
    )
    .expect("Failed to update campaign");

    assert_eq!(updated.name, "New Name");
    // Original values should be preserved
    assert_eq!(updated.description, Some("Original desc".to_string()));
    assert_eq!(updated.system, Some("D&D 5e".to_string()));
}

#[test]
fn test_update_campaign_not_found() {
    let mut db = Database::new();

    let result = update_campaign_impl(
        &mut db,
        "nonexistent-id".to_string(),
        Some("Name".to_string()),
        None,
        None,
        None,
    );

    assert!(result.is_err());
}

#[test]
fn test_delete_campaign() {
    let mut db = Database::new();

    let created = create_campaign_impl(&mut db, "To Delete".to_string(), None, None)
        .expect("Failed to create campaign");

    let deleted = delete_campaign_impl(&mut db, created.id.clone())
        .expect("Failed to delete campaign");

    assert!(deleted);

    // Verify it's actually deleted
    let result = get_campaign_impl(&db, created.id);
    assert!(result.is_err());
}

#[test]
fn test_delete_campaign_not_found() {
    let mut db = Database::new();

    let deleted = delete_campaign_impl(&mut db, "nonexistent-id".to_string())
        .expect("Delete should not error");

    assert!(!deleted);
}

#[test]
fn test_campaign_crud_lifecycle() {
    let mut db = Database::new();

    // Create
    let campaign = create_campaign_impl(
        &mut db,
        "Lifecycle Test".to_string(),
        Some("Testing full CRUD".to_string()),
        Some("Custom System".to_string()),
    )
    .expect("Create failed");

    // Read
    let read = get_campaign_impl(&db, campaign.id.clone())
        .expect("Read failed");
    assert_eq!(read.name, "Lifecycle Test");

    // Update
    let updated = update_campaign_impl(
        &mut db,
        campaign.id.clone(),
        Some("Updated Lifecycle".to_string()),
        None,
        None,
        None,
    )
    .expect("Update failed");
    assert_eq!(updated.name, "Updated Lifecycle");

    // List
    let list = list_campaigns_impl(&db).expect("List failed");
    assert_eq!(list.len(), 1);
    assert_eq!(list[0].name, "Updated Lifecycle");

    // Delete
    let deleted = delete_campaign_impl(&mut db, campaign.id.clone())
        .expect("Delete failed");
    assert!(deleted);

    // Verify deleted
    let list_after = list_campaigns_impl(&db).expect("List after delete failed");
    assert!(list_after.is_empty());
}
