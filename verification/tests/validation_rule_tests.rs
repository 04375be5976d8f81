use loreweaver::commands::validation::{
    location_type_allowed, org_type_allowed, plot_type_allowed, quest_status_allowed,
    validate_location_type, validate_org_type, validate_plot_type, validate_quest_status,
    CreateCharacterInput, CreateLocationInput, CreateOrganizationInput, CreateQuestInput,
    UpdateCharacterInput, UpdateLocationInput, UpdateOrganizationInput, UpdateQuestInput,
};
use loreweaver::error::AppError;
use validator::ValidationErrors;

/// What the collection holds for the fields, sorted by field: the code and
/// the message of each violation.
fn held(errors: &ValidationErrors) -> Vec<(String, Vec<(String, Option<String>)>)> {
    let mut out: Vec<(String, Vec<(String, Option<String>)>)> = errors
        .field_errors()
        .into_iter()
        .map(|(field, found)| {
            let found = found
                .iter()
                .map(|e| (e.code.to_string(), e.message.as_ref().map(|m| m.to_string())))
                .collect();
            (field.to_string(), found)
        })
        .collect();
    out.sort();
    out
}

fn one(field: &str, code: &str, message: &str) -> (String, Vec<(String, Option<String>)>) {
    (field.to_string(), vec![(code.to_string(), Some(message.to_string()))])
}

/// Every order of `rest`.
fn orders(rest: &[&str]) -> Vec<Vec<String>> {
    if rest.is_empty() {
        return vec![vec![]];
    }
    let mut out = Vec::new();
    for i in 0..rest.len() {
        let mut others = rest.to_vec();
        let first = others.remove(i);
        for mut tail in orders(&others) {
            tail.insert(0, first.to_string());
            out.push(tail);
        }
    }
    out
}

/// Whether `text` is the validation message made of `lines` in some order.
fn is_message_of(text: &str, lines: &[&str]) -> bool {
    orders(lines).iter().any(|order| text == format!("Validation error: {}", order.join(", ")))
}

const LOCATION_TYPES: &str = "must be one of: world, continent, region, territory, settlement, district, building, room, landmark, wilderness";
const ORG_TYPES: &str = "must be one of: government, guild, religion, military, criminal, mercantile, academic, secret_society, family, other";
const QUEST_STATES: &str = "must be one of: planned, available, active, completed, failed, abandoned";
const PLOT_TYPES: &str = "must be one of: main, secondary, side, background";

fn character(name: &str) -> CreateCharacterInput {
    CreateCharacterInput {
        name: name.to_string(),
        campaign_id: "c".to_string(),
        lineage: None,
        occupation: None,
        description: None,
        personality: None,
        motivations: None,
        secrets: None,
        voice_notes: None,
    }
}

#[test]
fn allowed_values_are_the_listed_ones() {
    for t in ["world", "continent", "region", "territory", "settlement", "district", "building", "room", "landmark", "wilderness"] {
        assert!(location_type_allowed(t));
    }
    for t in ["government", "guild", "religion", "military", "criminal", "mercantile", "academic", "secret_society", "family", "other"] {
        assert!(org_type_allowed(t));
    }
    for t in ["planned", "available", "active", "completed", "failed", "abandoned"] {
        assert!(quest_status_allowed(t));
    }
    for t in ["main", "secondary", "side", "background"] {
        assert!(plot_type_allowed(t));
    }
    for t in ["", "World", "settlement ", "guilds", "done", "Main", "other2"] {
        assert!(!location_type_allowed(t));
        assert!(!quest_status_allowed(t));
        assert!(!plot_type_allowed(t));
    }
    assert!(!org_type_allowed("settlement"));
    assert!(!location_type_allowed("other"));
}

#[test]
fn custom_validators_name_their_rule() {
    assert!(validate_location_type("room").is_ok());
    let e = validate_location_type("cave").unwrap_err();
    assert_eq!(e.code, "invalid_location_type");
    assert_eq!(
        e.message,
        Some("must be one of: world, continent, region, territory, settlement, district, building, room, landmark, wilderness".to_string())
    );
    let e = validate_org_type("club").unwrap_err();
    assert_eq!(e.code, "invalid_org_type");
    assert_eq!(
        e.message,
        Some("must be one of: government, guild, religion, military, criminal, mercantile, academic, secret_society, family, other".to_string())
    );
    let e = validate_quest_status("done").unwrap_err();
    assert_eq!(e.code, "invalid_quest_status");
    assert_eq!(e.message, Some("must be one of: planned, available, active, completed, failed, abandoned".to_string()));
    let e = validate_plot_type("epic").unwrap_err();
    assert_eq!(e.code, "invalid_plot_type");
    assert_eq!(e.message, Some("must be one of: main, secondary, side, background".to_string()));
    assert!(validate_org_type("guild").is_ok());
    assert!(validate_quest_status("active").is_ok());
    assert!(validate_plot_type("main").is_ok());
}

#[test]
fn name_length_is_counted_in_characters() {
    assert!(character(&"a".repeat(200)).validate().is_ok());
    assert!(character(&"é".repeat(200)).validate().is_ok());
    assert!(character(&"a".repeat(201)).validate().is_err());
    assert!(character("x").validate().is_ok());
}

#[test]
fn empty_name_message() {
    let errors = character("").validate().unwrap_err();
    assert_eq!(held(&errors), vec![one("name", "length", "name must be 1-200 characters")]);
    assert_eq!(AppError::from(errors).to_string(), "Validation error: name: name must be 1-200 characters");
}

#[test]
fn several_violations_are_all_reported() {
    let mut input = character("");
    input.lineage = Some("l".repeat(201));
    input.description = Some("d".repeat(50001));
    input.voice_notes = Some("v".repeat(50001));
    let errors = input.validate().unwrap_err();
    assert_eq!(
        held(&errors),
        vec![
            one("description", "length", "description too long"),
            one("lineage", "length", "lineage too long (max 200 chars)"),
            one("name", "length", "name must be 1-200 characters"),
            one("voice_notes", "length", "voice_notes too long"),
        ]
    );
    assert!(is_message_of(
        &AppError::from(errors).to_string(),
        &[
            "name: name must be 1-200 characters",
            "lineage: lineage too long (max 200 chars)",
            "description: description too long",
            "voice_notes: voice_notes too long",
        ]
    ));
}

#[test]
fn long_text_limit_is_fifty_thousand() {
    let mut input = character("ok");
    input.personality = Some("p".repeat(50000));
    assert!(input.validate().is_ok());
    input.personality = Some("p".repeat(50001));
    let errors = input.validate().unwrap_err();
    assert_eq!(AppError::from(errors).to_string(), "Validation error: personality: personality too long");
}

#[test]
fn location_input_reports_type_and_name() {
    let input = CreateLocationInput {
        name: "".to_string(),
        campaign_id: "c".to_string(),
        location_type: "cave".to_string(),
        parent_id: None,
        description: None,
    };
    let errors = input.validate().unwrap_err();
    assert_eq!(
        held(&errors),
        vec![
            one("location_type", "invalid_location_type", LOCATION_TYPES),
            one("name", "length", "name must be 1-200 characters"),
        ]
    );
    let type_line = format!("location_type: {LOCATION_TYPES}");
    assert!(is_message_of(
        &AppError::from(errors).to_string(),
        &["name: name must be 1-200 characters", &type_line]
    ));
}

#[test]
fn organization_input_rules() {
    let mut input = CreateOrganizationInput {
        name: "Guild".to_string(),
        campaign_id: "c".to_string(),
        org_type: "club".to_string(),
        description: None,
        goals: None,
        resources: None,
    };
    let errors = input.validate().unwrap_err();
    assert_eq!(held(&errors), vec![one("org_type", "invalid_org_type", ORG_TYPES)]);
    input.org_type = "family".to_string();
    input.resources = Some("r".repeat(50001));
    let errors = input.validate().unwrap_err();
    assert_eq!(AppError::from(errors).to_string(), "Validation error: resources: resources too long");
}

#[test]
fn quest_input_rules() {
    let input = CreateQuestInput {
        name: "Q".to_string(),
        campaign_id: "c".to_string(),
        plot_type: "epic".to_string(),
        status: "done".to_string(),
        description: None,
        hook: None,
        objectives: None,
    };
    let errors = input.validate().unwrap_err();
    assert_eq!(
        held(&errors),
        vec![
            one("plot_type", "invalid_plot_type", PLOT_TYPES),
            one("status", "invalid_quest_status", QUEST_STATES),
        ]
    );
    let plot_line = format!("plot_type: {PLOT_TYPES}");
    let status_line = format!("status: {QUEST_STATES}");
    assert!(is_message_of(&AppError::from(errors).to_string(), &[&plot_line, &status_line]));
}

#[test]
fn update_inputs_check_only_what_is_given() {
    let empty = UpdateCharacterInput {
        name: None,
        lineage: None,
        occupation: None,
        description: None,
        personality: None,
        motivations: None,
        secrets: None,
        voice_notes: None,
    };
    assert!(empty.validate().is_ok());
    let bad = UpdateCharacterInput { name: Some("".to_string()), ..empty };
    assert!(bad.validate().is_err());
}

#[test]
fn update_location_type_is_checked_apart() {
    let input = UpdateLocationInput {
        name: None,
        location_type: Some("cave".to_string()),
        parent_id: None,
        description: None,
        detail_level: None,
        gm_notes: None,
    };
    assert!(input.validate().is_ok());
    let errors = input.validate_location_type().unwrap_err();
    assert_eq!(held(&errors), vec![one("location_type", "invalid_location_type", LOCATION_TYPES)]);
    let fine = UpdateLocationInput { location_type: Some("room".to_string()), ..input };
    assert!(fine.validate_location_type().is_ok());
    let absent = UpdateLocationInput { location_type: None, ..fine };
    assert!(absent.validate_location_type().is_ok());
}

#[test]
fn update_org_type_is_checked_apart() {
    let input = UpdateOrganizationInput {
        name: None,
        org_type: Some("club".to_string()),
        description: None,
        goals: None,
        resources: None,
        reputation: None,
        secrets: None,
    };
    assert!(input.validate().is_ok());
    assert!(input.validate_org_type().is_err());
    let fine = UpdateOrganizationInput { org_type: Some("guild".to_string()), ..input };
    assert!(fine.validate_org_type().is_ok());
}

#[test]
fn update_quest_enums_report_both() {
    let input = UpdateQuestInput {
        name: None,
        status: Some("done".to_string()),
        plot_type: Some("epic".to_string()),
        description: None,
        hook: None,
        objectives: None,
        complications: None,
        resolution: None,
        reward: None,
    };
    let errors = input.validate_enums().unwrap_err();
    assert_eq!(
        held(&errors),
        vec![
            one("plot_type", "invalid_plot_type", PLOT_TYPES),
            one("status", "invalid_quest_status", QUEST_STATES),
        ]
    );
    let fine = UpdateQuestInput {
        status: Some("active".to_string()),
        plot_type: None,
        ..input
    };
    assert!(fine.validate_enums().is_ok());
}
