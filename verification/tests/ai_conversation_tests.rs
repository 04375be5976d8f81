use loreweaver::commands::ai_conversation::{
    add_message_impl, clear_conversation_impl, get_or_create_conversation_impl,
    load_conversation_impl, update_token_counts_impl,
};
use loreweaver::commands::campaign::create_campaign_impl;
use loreweaver::db::Database;
use loreweaver::error::AppError;

fn create_test_campaign(db: &mut Database) -> String {
    create_campaign_impl(db, "Test Campaign".to_string(), None, None)
        .expect("Failed to create campaign")
        .id
}

#[test]
fn test_get_or_create_conversation_creates_new() {
    let mut db = Database::new();
    let campaign_id = create_test_campaign(&mut db);

    let result = get_or_create_conversation_impl(
        &mut db,
        campaign_id.clone(),
        "sidebar".to_string(),
    );

    assert!(result.is_ok());
    let conversation = result.unwrap();
    assert_eq!(conversation.campaign_id, campaign_id);
    assert_eq!(conversation.context_type, "sidebar");
    assert_eq!(conversation.total_input_tokens, 0);
    assert_eq!(conversation.total_output_tokens, 0);
    assert_eq!(conversation.total_cache_read_tokens, 0);
    assert_eq!(conversation.total_cache_creation_tokens, 0);
}

#[test]
fn test_get_or_create_conversation_retrieves_existing() {
    let mut db = Database::new();
    let campaign_id = create_test_campaign(&mut db);

    // Create first conversation
    let first = get_or_create_conversation_impl(
        &mut db,
        campaign_id.clone(),
        "sidebar".to_string(),
    )
    .unwrap();

    // Second call should return same conversation
    let second = get_or_create_conversation_impl(
        &mut db,
        campaign_id.clone(),
        "sidebar".to_string(),
    )
    .unwrap();

    assert_eq!(first.id, second.id);
    assert_eq!(first.created_at, second.created_at);
}

#[test]
fn test_get_or_create_conversation_different_contexts() {
    let mut db = Database::new();
    let campaign_id = create_test_campaign(&mut db);

    let sidebar = get_or_create_conversation_impl(
        &mut db,
        campaign_id.clone(),
        "sidebar".to_string(),
    )
    .unwrap();

    let fullpage = get_or_create_conversation_impl(
        &mut db,
        campaign_id.clone(),
        "fullpage".to_string(),
    )
    .unwrap();

    // Different context types should create different conversations
    assert_ne!(sidebar.id, fullpage.id);
    assert_eq!(sidebar.context_type, "sidebar");
    assert_eq!(fullpage.context_type, "fullpage");
}

#[test]
fn test_load_conversation_returns_none_for_missing() {
    let mut db = Database::new();
    let campaign_id = create_test_campaign(&mut db);

    let result = load_conversation_impl(
        &db,
        campaign_id,
        "nonexistent".to_string(),
    );

    assert!(result.is_ok());
    assert!(result.unwrap().is_none());
}

#[test]
fn test_load_conversation_with_messages() {
    let mut db = Database::new();
    let campaign_id = create_test_campaign(&mut db);

    // Create conversation and messages
    let conversation = get_or_create_conversation_impl(
        &mut db,
        campaign_id.clone(),
        "sidebar".to_string(),
    )
    .unwrap();

    // Add messages in specific order
    add_message_impl(
        &mut db,
        conversation.id.clone(),
        "user".to_string(),
        "First message".to_string(),
        None,
        None,
        None,
        None,
    )
    .unwrap();

    add_message_impl(
        &mut db,
        conversation.id.clone(),
        "assistant".to_string(),
        "Second message".to_string(),
        None,
        None,
        None,
        None,
    )
    .unwrap();

    // Load conversation
    let result = load_conversation_impl(
        &db,
        campaign_id,
        "sidebar".to_string(),
    )
    .unwrap()
    .expect("Conversation should exist");

    assert_eq!(result.messages.len(), 2);
    assert_eq!(result.messages[0].content, "First message");
    assert_eq!(result.messages[0].role, "user");
    assert_eq!(result.messages[0].message_order, 1);
    assert_eq!(result.messages[1].content, "Second message");
    assert_eq!(result.messages[1].role, "assistant");
    assert_eq!(result.messages[1].message_order, 2);
}

#[test]
fn test_add_message_auto_increments_order() {
    let mut db = Database::new();
    let campaign_id = create_test_campaign(&mut db);

    let conversation = get_or_create_conversation_impl(
        &mut db,
        campaign_id,
        "sidebar".to_string(),
    )
    .unwrap();

    // Add multiple messages
    let msg1 = add_message_impl(
        &mut db,
        conversation.id.clone(),
        "user".to_string(),
        "Message 1".to_string(),
        None,
        None,
        None,
        None,
    )
    .unwrap();

    let msg2 = add_message_impl(
        &mut db,
        conversation.id.clone(),
        "assistant".to_string(),
        "Message 2".to_string(),
        None,
        None,
        None,
        None,
    )
    .unwrap();

    let msg3 = add_message_impl(
        &mut db,
        conversation.id.clone(),
        "user".to_string(),
        "Message 3".to_string(),
        None,
        None,
        None,
        None,
    )
    .unwrap();

    assert_eq!(msg1.message_order, 1);
    assert_eq!(msg2.message_order, 2);
    assert_eq!(msg3.message_order, 3);
}

#[test]
fn test_add_message_with_tool_data() {
    let mut db = Database::new();
    let campaign_id = create_test_campaign(&mut db);

    let conversation = get_or_create_conversation_impl(
        &mut db,
        campaign_id,
        "sidebar".to_string(),
    )
    .unwrap();

    let message = add_message_impl(
        &mut db,
        conversation.id,
        "tool".to_string(),
        "Tool result".to_string(),
        Some("get_entity".to_string()),
        Some(r#"{"entity_id": "123"}"#.to_string()),
        Some(r#"{"name": "Test Entity"}"#.to_string()),
        None,
    )
    .unwrap();

    assert_eq!(message.role, "tool");
    assert_eq!(message.tool_name, Some("get_entity".to_string()));
    assert_eq!(message.tool_input_json, Some(r#"{"entity_id": "123"}"#.to_string()));
    assert_eq!(message.tool_data_json, Some(r#"{"name": "Test Entity"}"#.to_string()));
    assert_eq!(message.proposal_json, None);
}

#[test]
fn test_add_message_with_proposal() {
    let mut db = Database::new();
    let campaign_id = create_test_campaign(&mut db);

    let conversation = get_or_create_conversation_impl(
        &mut db,
        campaign_id,
        "sidebar".to_string(),
    )
    .unwrap();

    let proposal_json = r#"{"id": "prop1", "operation": "create", "status": "pending"}"#;
    let message = add_message_impl(
        &mut db,
        conversation.id,
        "proposal".to_string(),
        "Create character proposal".to_string(),
        None,
        None,
        None,
        Some(proposal_json.to_string()),
    )
    .unwrap();

    assert_eq!(message.role, "proposal");
    assert_eq!(message.proposal_json, Some(proposal_json.to_string()));
    assert!(message.tool_name.is_none());
}

#[test]
fn test_update_token_counts_accumulates() {
    let mut db = Database::new();
    let campaign_id = create_test_campaign(&mut db);

    let conversation = get_or_create_conversation_impl(
        &mut db,
        campaign_id,
        "sidebar".to_string(),
    )
    .unwrap();

    // First update
    let result1 = update_token_counts_impl(
        &mut db,
        conversation.id.clone(),
        100,
        50,
        25,
        10,
    )
    .unwrap();

    assert_eq!(result1.total_input_tokens, 100);
    assert_eq!(result1.total_output_tokens, 50);
    assert_eq!(result1.total_cache_read_tokens, 25);
    assert_eq!(result1.total_cache_creation_tokens, 10);

    // Second update should accumulate
    let result2 = update_token_counts_impl(
        &mut db,
        conversation.id.clone(),
        200,
        100,
        50,
        20,
    )
    .unwrap();

    assert_eq!(result2.total_input_tokens, 300);
    assert_eq!(result2.total_output_tokens, 150);
    assert_eq!(result2.total_cache_read_tokens, 75);
    assert_eq!(result2.total_cache_creation_tokens, 30);
}

#[test]
fn test_update_token_counts_nonexistent_conversation() {
    let mut db = Database::new();

    let result = update_token_counts_impl(
        &mut db,
        "nonexistent-id".to_string(),
        100,
        50,
        25,
        10,
    );

    assert!(result.is_err());
    match result {
        Err(AppError::NotFound(_)) => (),
        _ => panic!("Expected NotFound error"),
    }
}

#[test]
fn test_clear_conversation_deletes_messages() {
    let mut db = Database::new();
    let campaign_id = create_test_campaign(&mut db);

    let conversation = get_or_create_conversation_impl(
        &mut db,
        campaign_id.clone(),
        "sidebar".to_string(),
    )
    .unwrap();

    // Add messages
    for i in 1..=5 {
        add_message_impl(
            &mut db,
            conversation.id.clone(),
            "user".to_string(),
            format!("Message {}", i),
            None,
            None,
            None,
            None,
        )
        .unwrap();
    }

    // Clear conversation
    let result = clear_conversation_impl(&mut db, conversation.id.clone());
    assert!(result.is_ok());
    assert!(result.unwrap());

    // Verify messages are deleted
    let loaded = load_conversation_impl(
        &db,
        campaign_id,
        "sidebar".to_string(),
    )
    .unwrap()
    .expect("Conversation should still exist");

    assert_eq!(loaded.messages.len(), 0);
}

#[test]
fn test_clear_conversation_resets_tokens() {
    let mut db = Database::new();
    let campaign_id = create_test_campaign(&mut db);

    let conversation = get_or_create_conversation_impl(
        &mut db,
        campaign_id.clone(),
        "sidebar".to_string(),
    )
    .unwrap();

    // Update token counts
    update_token_counts_impl(
        &mut db,
        conversation.id.clone(),
        1000,
        500,
        250,
        100,
    )
    .unwrap();

    // Clear conversation
    clear_conversation_impl(&mut db, conversation.id.clone())
        .unwrap();

    // Verify tokens are reset
    let loaded = load_conversation_impl(
        &db,
        campaign_id,
        "sidebar".to_string(),
    )
    .unwrap()
    .expect("Conversation should exist");

    assert_eq!(loaded.conversation.total_input_tokens, 0);
    assert_eq!(loaded.conversation.total_output_tokens, 0);
    assert_eq!(loaded.conversation.total_cache_read_tokens, 0);
    assert_eq!(loaded.conversation.total_cache_creation_tokens, 0);
}

#[test]
fn test_clear_conversation_nonexistent() {
    let mut db = Database::new();

    let result = clear_conversation_impl(&mut db, "nonexistent-id".to_string());

    // Should succeed but return false (no rows affected)
    assert!(result.is_ok());
    assert!(!result.unwrap());
}
