use loreweaver::commands::validation::{
    CreateCharacterInput, CreateLocationInput, CreateOrganizationInput, CreateQuestInput,
};

#[test]
fn test_create_character_valid() {
    let input = CreateCharacterInput {
        name: "Test Character".to_string(),
        campaign_id: "test-campaign".to_string(),
        lineage: Some("Human".to_string()),
        occupation: None,
        description: None,
        personality: None,
        motivations: None,
        secrets: None,
        voice_notes: None,
    };
    assert!(input.validate().is_ok());
}

#[test]
fn test_create_character_empty_name() {
    let input = CreateCharacterInput {
        name: "".to_string(),
        campaign_id: "test-campaign".to_string(),
        lineage: None,
        occupation: None,
        description: None,
        personality: None,
        motivations: None,
        secrets: None,
        voice_notes: None,
    };
    assert!(input.validate().is_err());
}

#[test]
fn test_create_location_valid() {
    let input = CreateLocationInput {
        name: "Test City".to_string(),
        campaign_id: "test-campaign".to_string(),
        location_type: "settlement".to_string(),
        parent_id: None,
        description: None,
    };
    assert!(input.validate().is_ok());
}

#[test]
fn test_create_location_invalid_type() {
    let input = CreateLocationInput {
        name: "Test Place".to_string(),
        campaign_id: "test-campaign".to_string(),
        location_type: "invalid_type".to_string(),
        parent_id: None,
        description: None,
    };
    assert!(input.validate().is_err());
}

#[test]
fn test_create_organization_valid() {
    let input = CreateOrganizationInput {
        name: "Test Guild".to_string(),
        campaign_id: "test-campaign".to_string(),
        org_type: "guild".to_string(),
        description: None,
        goals: None,
        resources: None,
    };
    assert!(input.validate().is_ok());
}

#[test]
fn test_create_quest_valid() {
    let input = CreateQuestInput {
        name: "Test Quest".to_string(),
        campaign_id: "test-campaign".to_string(),
        plot_type: "side".to_string(),
        status: "planned".to_string(),
        description: None,
        hook: None,
        objectives: None,
    };
    assert!(input.validate().is_ok());
}

#[test]
fn test_create_quest_invalid_status() {
    let input = CreateQuestInput {
        name: "Test Quest".to_string(),
        campaign_id: "test-campaign".to_string(),
        plot_type: "side".to_string(),
        status: "invalid_status".to_string(),
        description: None,
        hook: None,
        objectives: None,
    };
    assert!(input.validate().is_err());
}
