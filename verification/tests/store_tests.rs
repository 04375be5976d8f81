use loreweaver::commands::ai_conversation::{
    add_message_impl, add_token_counts, clear_conversation_impl, get_or_create_conversation_impl,
    load_conversation_impl, update_token_counts_impl,
};
use loreweaver::commands::campaign::{
    create_campaign_impl, delete_campaign_impl, get_campaign_impl, update_campaign_impl,
};
use loreweaver::commands::character::{
    change_character, create_character, get_character_impl, list_characters_impl,
    update_character_impl,
};
use loreweaver::commands::hero::{create_hero, delete_hero, get_hero, list_heroes, update_hero};
use loreweaver::commands::location::{
    create_location, delete_location_impl, get_location_children_impl, get_location_impl,
    update_location_impl,
};
use loreweaver::commands::organization::{
    create_organization, create_organization_impl, delete_organization, get_organization,
    list_organizations,
};
use loreweaver::commands::player::{
    create_player, delete_player, get_player, list_players, update_player,
};
use loreweaver::commands::quest::{create_quest, get_quest, list_quests, update_quest};
use loreweaver::commands::relationship::{
    create_relationship_impl, get_entity_relationships_impl, get_relationship_impl,
    list_relationships_impl,
};
use loreweaver::commands::secret::{
    create_secret, delete_secret, get_secret, list_secrets, update_secret,
};
use loreweaver::commands::session::{
    create_session, delete_session, get_session, list_sessions, update_session,
};
use loreweaver::commands::tag::{
    add_entity_tag_impl, create_tag_impl, delete_tag_impl, get_entity_tags_impl, get_tag_impl,
    list_tags_impl, remove_entity_tag_impl,
};
use loreweaver::commands::timeline::{
    create_timeline_event, delete_timeline_event, get_timeline_event, list_timeline_events,
    update_timeline_event,
};
use loreweaver::commands::validation::CreateOrganizationInput;
use loreweaver::clock::Timestamp;
use loreweaver::db::Database;
use loreweaver::entity::character::CharacterPatch;
use loreweaver::error::AppError;

fn campaign(db: &mut Database, name: &str) -> String {
    create_campaign_impl(db, name.to_string(), None, None).expect("campaign").id
}

fn s(text: &str) -> String {
    text.to_string()
}

// ---------- campaign isolation

#[test]
fn a_created_row_is_listed_for_its_campaign_and_no_other() {
    let mut db = Database::new();
    let c1 = campaign(&mut db, "One");
    let c2 = campaign(&mut db, "Two");
    let ch = create_character(&mut db, c1.clone(), s("Bilbo"), None, None, None).expect("character");
    let q = create_quest(&mut db, c1.clone(), s("Quest"), None, None, None).expect("quest");
    let p = create_player(&mut db, c1.clone(), s("Pat"), None, None).expect("player");
    let h = create_hero(&mut db, c1.clone(), s("Hero"), None, None, None, None).expect("hero");
    let sec = create_secret(&mut db, c1.clone(), s("T"), s("C"), None, None).expect("secret");
    let ev = create_timeline_event(&mut db, c1.clone(), s("Fall"), s("Year 1"), None, None, None).expect("event");
    let se = create_session(&mut db, c1.clone(), 1, None, None).expect("session");
    let o = create_organization(&mut db, c1.clone(), s("Org"), None, None, None, None).expect("org");

    assert!(list_characters_impl(&db, c1.clone()).unwrap().iter().any(|r| r.id == ch.id));
    assert!(list_quests(&db, c1.clone()).unwrap().iter().any(|r| r.id == q.id));
    assert!(list_players(&db, c1.clone()).unwrap().iter().any(|r| r.id == p.id));
    assert!(list_heroes(&db, c1.clone()).unwrap().iter().any(|r| r.id == h.id));
    assert!(list_secrets(&db, c1.clone()).unwrap().iter().any(|r| r.id == sec.id));
    assert!(list_timeline_events(&db, c1.clone()).unwrap().iter().any(|r| r.id == ev.id));
    assert!(list_sessions(&db, c1.clone()).unwrap().iter().any(|r| r.id == se.id));
    assert!(list_organizations(&db, c1.clone()).unwrap().iter().any(|r| r.id == o.id));

    assert!(list_characters_impl(&db, c2.clone()).unwrap().is_empty());
    assert!(list_quests(&db, c2.clone()).unwrap().is_empty());
    assert!(list_players(&db, c2.clone()).unwrap().is_empty());
    assert!(list_heroes(&db, c2.clone()).unwrap().is_empty());
    assert!(list_secrets(&db, c2.clone()).unwrap().is_empty());
    assert!(list_timeline_events(&db, c2.clone()).unwrap().is_empty());
    assert!(list_sessions(&db, c2.clone()).unwrap().is_empty());
    assert!(list_organizations(&db, c2).unwrap().is_empty());
}

// ---------- referential rules on writing

#[test]
fn a_row_of_a_missing_campaign_is_refused() {
    let mut db = Database::new();
    let e = create_character(&mut db, s("nowhere"), s("Ghost"), None, None, None).unwrap_err();
    assert_eq!(e.to_string(), "Database error: FOREIGN KEY constraint failed");
    assert!(matches!(create_quest(&mut db, s("nowhere"), s("Q"), None, None, None), Err(AppError::Database(_))));
    assert!(matches!(create_tag_impl(&mut db, s("nowhere"), s("T"), None), Err(AppError::Database(_))));
    assert!(matches!(create_session(&mut db, s("nowhere"), 1, None, None), Err(AppError::Database(_))));
    assert!(matches!(
        get_or_create_conversation_impl(&mut db, s("nowhere"), s("sidebar")),
        Err(AppError::Database(_))
    ));
    assert!(list_characters_impl(&db, s("nowhere")).unwrap().is_empty());
}

#[test]
fn a_location_with_a_missing_parent_is_refused() {
    let mut db = Database::new();
    let c = campaign(&mut db, "C");
    let e = create_location(&mut db, c.clone(), s("Room"), None, Some(s("no-parent")), None).unwrap_err();
    assert_eq!(e.to_string(), "Database error: FOREIGN KEY constraint failed");
    let l = create_location(&mut db, c, s("Room"), None, None, None).expect("location");
    let e = update_location_impl(&mut db, l.id.clone(), None, None, Some(s("no-parent")), None, None, None).unwrap_err();
    assert_eq!(e.to_string(), "Database error: FOREIGN KEY constraint failed");
    assert_eq!(get_location_impl(&db, l.id).unwrap().parent_id, None);
}

#[test]
fn a_hero_with_a_missing_player_is_refused() {
    let mut db = Database::new();
    let c = campaign(&mut db, "C");
    let e = create_hero(&mut db, c.clone(), s("H"), Some(s("nobody")), None, None, None).unwrap_err();
    assert_eq!(e.to_string(), "Database error: FOREIGN KEY constraint failed");
    let h = create_hero(&mut db, c, s("H"), None, None, None, None).expect("hero");
    let e = update_hero(&mut db, h.id.clone(), None, Some(s("nobody")), None, None, None, None, None, None, None)
        .unwrap_err();
    assert!(matches!(e, AppError::Database(_)));
    assert_eq!(get_hero(&db, h.id).unwrap().player_id, None);
}

#[test]
fn an_attachment_needs_its_tag_and_is_stored_once() {
    let mut db = Database::new();
    let c = campaign(&mut db, "C");
    let e = add_entity_tag_impl(&mut db, s("no-tag"), s("character"), s("x")).unwrap_err();
    assert_eq!(e.to_string(), "Database error: FOREIGN KEY constraint failed");
    let t = create_tag_impl(&mut db, c, s("Hero"), None).expect("tag");
    assert!(add_entity_tag_impl(&mut db, t.id.clone(), s("character"), s("x")).unwrap());
    let e = add_entity_tag_impl(&mut db, t.id.clone(), s("character"), s("x")).unwrap_err();
    assert_eq!(
        e.to_string(),
        "Database error: UNIQUE constraint failed: entity_tags.tag_id, entity_tags.entity_type, entity_tags.entity_id"
    );
    assert!(add_entity_tag_impl(&mut db, t.id.clone(), s("location"), s("x")).unwrap());
    assert_eq!(get_entity_tags_impl(&db, s("character"), s("x")).unwrap().len(), 1);
}

#[test]
fn a_tag_name_is_unique_within_its_campaign() {
    let mut db = Database::new();
    let c1 = campaign(&mut db, "One");
    let c2 = campaign(&mut db, "Two");
    create_tag_impl(&mut db, c1.clone(), s("Villain"), None).expect("tag");
    let e = create_tag_impl(&mut db, c1.clone(), s("Villain"), Some(s("#000"))).unwrap_err();
    assert_eq!(e.to_string(), "Database error: UNIQUE constraint failed: tags.campaign_id, tags.name");
    // names are compared as written
    create_tag_impl(&mut db, c1.clone(), s("villain"), None).expect("other case");
    create_tag_impl(&mut db, c2, s("Villain"), None).expect("other campaign");
    assert_eq!(list_tags_impl(&db, c1).unwrap().len(), 2);
}

#[test]
fn a_session_number_is_unique_within_its_campaign() {
    let mut db = Database::new();
    let c1 = campaign(&mut db, "One");
    let c2 = campaign(&mut db, "Two");
    let first = create_session(&mut db, c1.clone(), 1, None, None).expect("session");
    let second = create_session(&mut db, c1.clone(), 2, None, None).expect("session");
    let e = create_session(&mut db, c1.clone(), 1, Some(s("again")), None).unwrap_err();
    assert_eq!(
        e.to_string(),
        "Database error: UNIQUE constraint failed: sessions.campaign_id, sessions.session_number"
    );
    create_session(&mut db, c2, 1, None, None).expect("other campaign");
    let e = update_session(&mut db, second.id.clone(), Some(1), None, None, None, None, None, None).unwrap_err();
    assert!(matches!(e, AppError::Database(_)));
    assert_eq!(get_session(&db, second.id.clone()).unwrap().session_number, 2);
    // its own number is no clash
    let same = update_session(&mut db, first.id, Some(1), Some(s("One")), None, None, None, None, None).expect("same");
    assert_eq!(same.session_number, 1);
    let moved = update_session(&mut db, second.id, Some(3), None, None, None, None, None, None).expect("moved");
    assert_eq!(moved.session_number, 3);
}

// ---------- orphans, not cascade

#[test]
fn deleting_a_parent_location_leaves_children_without_parent() {
    let mut db = Database::new();
    let c = campaign(&mut db, "C");
    let parent = create_location(&mut db, c.clone(), s("Kingdom"), Some(s("region")), None, None).expect("parent");
    let other = create_location(&mut db, c.clone(), s("Island"), Some(s("region")), None, None).expect("other");
    let child = create_location(&mut db, c.clone(), s("Town"), None, Some(parent.id.clone()), Some(s("busy")))
        .expect("child");
    let grandchild = create_location(&mut db, c.clone(), s("Inn"), Some(s("building")), Some(child.id.clone()), None)
        .expect("grandchild");
    let elsewhere = create_location(&mut db, c, s("Hut"), Some(s("building")), Some(other.id.clone()), None)
        .expect("elsewhere");

    assert!(delete_location_impl(&mut db, parent.id.clone()).unwrap());

    assert!(get_location_impl(&db, parent.id.clone()).is_err());
    let after = get_location_impl(&db, child.id.clone()).expect("child stays");
    assert_eq!(after.parent_id, None);
    assert_eq!(after.name, "Town");
    assert_eq!(after.description, Some(s("busy")));
    assert_eq!(after.location_type, "settlement");
    assert_eq!(after.created_at, child.created_at);
    assert_eq!(get_location_impl(&db, grandchild.id).unwrap().parent_id, Some(child.id));
    assert_eq!(get_location_impl(&db, elsewhere.id).unwrap().parent_id, Some(other.id));
    assert!(get_location_children_impl(&db, parent.id).unwrap().is_empty());
}

#[test]
fn deleting_a_player_leaves_heroes_without_player() {
    let mut db = Database::new();
    let c = campaign(&mut db, "C");
    let pat = create_player(&mut db, c.clone(), s("Pat"), None, None).expect("player");
    let sam = create_player(&mut db, c.clone(), s("Sam"), None, None).expect("player");
    let first_hero = create_hero(&mut db, c.clone(), s("One"), Some(pat.id.clone()), None, None, None).expect("hero");
    let second_hero = create_hero(&mut db, c.clone(), s("Two"), Some(sam.id.clone()), None, None, None).expect("hero");
    assert!(delete_player(&mut db, pat.id.clone()).unwrap());
    assert!(get_player(&db, pat.id).is_err());
    assert_eq!(get_hero(&db, first_hero.id).unwrap().player_id, None);
    assert_eq!(get_hero(&db, second_hero.id).unwrap().player_id, Some(sam.id));
    assert_eq!(list_heroes(&db, c).unwrap().len(), 2);
}

// ---------- cascade

#[test]
fn deleting_a_campaign_removes_every_kind_of_row() {
    let mut db = Database::new();
    let c = campaign(&mut db, "Doomed");
    let keep = campaign(&mut db, "Kept");
    let ch = create_character(&mut db, c.clone(), s("A"), None, None, None).unwrap();
    let l = create_location(&mut db, c.clone(), s("L"), None, None, None).unwrap();
    let o = create_organization(&mut db, c.clone(), s("O"), None, None, None, None).unwrap();
    let q = create_quest(&mut db, c.clone(), s("Q"), None, None, None).unwrap();
    let p = create_player(&mut db, c.clone(), s("P"), None, None).unwrap();
    let h = create_hero(&mut db, c.clone(), s("H"), Some(p.id.clone()), None, None, None).unwrap();
    let se = create_session(&mut db, c.clone(), 1, None, None).unwrap();
    let ev = create_timeline_event(&mut db, c.clone(), s("E"), s("then"), None, None, None).unwrap();
    let sec = create_secret(&mut db, c.clone(), s("S"), s("hidden"), None, None).unwrap();
    let t = create_tag_impl(&mut db, c.clone(), s("T"), None).unwrap();
    let rel = create_relationship_impl(&mut db, c.clone(), s("character"), ch.id.clone(), s("location"), l.id.clone(), s("lives_in"), None, None, None)
        .unwrap();
    add_entity_tag_impl(&mut db, t.id.clone(), s("character"), ch.id.clone()).unwrap();
    let conv = get_or_create_conversation_impl(&mut db, c.clone(), s("sidebar")).unwrap();
    add_message_impl(&mut db, conv.id.clone(), s("user"), s("hello"), None, None, None, None).unwrap();
    let kept = create_character(&mut db, keep.clone(), s("Kept"), None, None, None).unwrap();

    assert!(delete_campaign_impl(&mut db, c.clone()).unwrap());

    assert!(get_campaign_impl(&db, c.clone()).is_err());
    assert!(get_character_impl(&db, ch.id.clone()).is_err());
    assert!(get_location_impl(&db, l.id).is_err());
    assert!(get_organization(&db, o.id).is_err());
    assert!(get_quest(&db, q.id).is_err());
    assert!(get_player(&db, p.id).is_err());
    assert!(get_hero(&db, h.id).is_err());
    assert!(get_session(&db, se.id).is_err());
    assert!(get_timeline_event(&db, ev.id).is_err());
    assert!(get_secret(&db, sec.id).is_err());
    assert!(get_tag_impl(&db, t.id).is_err());
    assert!(get_relationship_impl(&db, rel.id).is_err());
    assert!(get_entity_tags_impl(&db, s("character"), ch.id).unwrap().is_empty());
    assert!(load_conversation_impl(&db, c.clone(), s("sidebar")).unwrap().is_none());
    // the messages went with the conversation: a new one starts at the first place
    assert!(matches!(
        add_message_impl(&mut db, conv.id, s("user"), s("anyone?"), None, None, None, None),
        Err(AppError::Database(_))
    ));
    assert!(list_relationships_impl(&db, c).unwrap().is_empty());

    assert!(get_campaign_impl(&db, keep).is_ok());
    assert_eq!(get_character_impl(&db, kept.id).unwrap().name, "Kept");
}

#[test]
fn a_cascade_detaches_what_pointed_across_campaigns() {
    let mut db = Database::new();
    let doomed = campaign(&mut db, "Doomed");
    let kept = campaign(&mut db, "Kept");
    let parent = create_location(&mut db, doomed.clone(), s("Far"), None, None, None).unwrap();
    let child = create_location(&mut db, kept.clone(), s("Near"), None, Some(parent.id.clone()), None).unwrap();
    let player = create_player(&mut db, doomed.clone(), s("P"), None, None).unwrap();
    let hero = create_hero(&mut db, kept, s("H"), Some(player.id), None, None, None).unwrap();
    assert!(delete_campaign_impl(&mut db, doomed).unwrap());
    assert_eq!(get_location_impl(&db, child.id).unwrap().parent_id, None);
    assert_eq!(get_hero(&db, hero.id).unwrap().player_id, None);
}

#[test]
fn deleting_a_tag_leaves_the_tagged_entity_and_other_tags() {
    let mut db = Database::new();
    let c = campaign(&mut db, "C");
    let ch = create_character(&mut db, c.clone(), s("Tagged"), None, None, Some(s("d"))).unwrap();
    let t1 = create_tag_impl(&mut db, c.clone(), s("One"), None).unwrap();
    let t2 = create_tag_impl(&mut db, c, s("Two"), None).unwrap();
    add_entity_tag_impl(&mut db, t1.id.clone(), s("character"), ch.id.clone()).unwrap();
    add_entity_tag_impl(&mut db, t2.id.clone(), s("character"), ch.id.clone()).unwrap();
    assert!(delete_tag_impl(&mut db, t1.id.clone()).unwrap());
    let left = get_entity_tags_impl(&db, s("character"), ch.id.clone()).unwrap();
    assert_eq!(left.len(), 1);
    assert_eq!(left[0].id, t2.id);
    let same = get_character_impl(&db, ch.id.clone()).unwrap();
    assert_eq!(same.name, "Tagged");
    assert_eq!(same.description, Some(s("d")));
    assert_eq!(same.updated_at, ch.updated_at);
    assert!(!remove_entity_tag_impl(&mut db, t1.id, s("character"), ch.id).unwrap());
}

#[test]
fn deleting_an_entity_leaves_its_associations_behind() {
    let mut db = Database::new();
    let c = campaign(&mut db, "C");
    let a = create_character(&mut db, c.clone(), s("A"), None, None, None).unwrap();
    let b = create_character(&mut db, c.clone(), s("B"), None, None, None).unwrap();
    let t = create_tag_impl(&mut db, c.clone(), s("T"), None).unwrap();
    add_entity_tag_impl(&mut db, t.id.clone(), s("character"), a.id.clone()).unwrap();
    create_relationship_impl(&mut db, c, s("character"), a.id.clone(), s("character"), b.id, s("knows"), None, None, None)
        .unwrap();
    assert!(loreweaver::commands::character::delete_character_impl(&mut db, a.id.clone()).unwrap());
    assert_eq!(get_entity_tags_impl(&db, s("character"), a.id.clone()).unwrap().len(), 1);
    assert_eq!(get_entity_relationships_impl(&db, s("character"), a.id).unwrap().len(), 1);
}

// ---------- update

#[test]
fn an_update_without_changes_keeps_every_field_but_the_time() {
    let mut db = Database::new();
    let c = campaign(&mut db, "C");
    let ch = create_character(&mut db, c, s("Same"), Some(s("Elf")), Some(s("Smith")), Some(s("d"))).unwrap();
    let later = Timestamp { seconds: 4102444800, nanos: 7 };
    let after = change_character(&mut db, &ch.id, CharacterPatch::none(), later).unwrap();
    assert_eq!(after.id, ch.id);
    assert_eq!(after.campaign_id, ch.campaign_id);
    assert_eq!(after.name, ch.name);
    assert_eq!(after.lineage, ch.lineage);
    assert_eq!(after.occupation, ch.occupation);
    assert_eq!(after.is_alive, ch.is_alive);
    assert_eq!(after.description, ch.description);
    assert_eq!(after.personality, ch.personality);
    assert_eq!(after.motivations, ch.motivations);
    assert_eq!(after.secrets, ch.secrets);
    assert_eq!(after.voice_notes, ch.voice_notes);
    assert_eq!(after.stat_block_json, ch.stat_block_json);
    assert_eq!(after.created_at, ch.created_at);
    assert_eq!(after.updated_at, "2100-01-01 00:00:00.000000007 UTC");
    let stored = get_character_impl(&db, ch.id).unwrap();
    assert_eq!(stored.updated_at, after.updated_at);
    assert_eq!(stored.name, "Same");
}

#[test]
fn an_update_without_changes_keeps_parent_player_and_number() {
    let mut db = Database::new();
    let c = campaign(&mut db, "C");
    let parent = create_location(&mut db, c.clone(), s("Kingdom"), Some(s("region")), None, None).unwrap();
    let child = create_location(&mut db, c.clone(), s("Town"), None, Some(parent.id.clone()), Some(s("busy"))).unwrap();
    let same = update_location_impl(&mut db, child.id.clone(), None, None, None, None, None, None).unwrap();
    assert_eq!(same.id, child.id);
    assert_eq!(same.campaign_id, child.campaign_id);
    assert_eq!(same.parent_id, Some(parent.id.clone()));
    assert_eq!(same.name, child.name);
    assert_eq!(same.location_type, child.location_type);
    assert_eq!(same.description, child.description);
    assert_eq!(same.detail_level, child.detail_level);
    assert_eq!(same.gm_notes, child.gm_notes);
    assert_eq!(same.created_at, child.created_at);
    assert_eq!(get_location_impl(&db, parent.id.clone()).unwrap().updated_at, parent.updated_at);

    let player = create_player(&mut db, c.clone(), s("Pat"), None, None).unwrap();
    let hero = create_hero(&mut db, c.clone(), s("Frodo"), Some(player.id.clone()), Some(s("Hobbit")), None, None).unwrap();
    let same = update_hero(&mut db, hero.id.clone(), None, None, None, None, None, None, None, None, None).unwrap();
    assert_eq!(same.player_id, Some(player.id));
    assert_eq!(same.name, hero.name);
    assert_eq!(same.lineage, hero.lineage);
    assert_eq!(same.is_active, hero.is_active);
    assert_eq!(same.created_at, hero.created_at);

    let session = create_session(&mut db, c.clone(), 4, Some(s("Four")), Some(s("2024-01-02"))).unwrap();
    create_session(&mut db, c, 5, None, None).unwrap();
    let same = update_session(&mut db, session.id.clone(), None, None, None, None, None, None, None).unwrap();
    assert_eq!(same.session_number, 4);
    assert_eq!(same.title, session.title);
    assert_eq!(same.date, session.date);
    assert_eq!(same.created_at, session.created_at);
}

#[test]
fn stored_times_are_clock_readings() {
    let mut db = Database::new();
    let c = create_campaign_impl(&mut db, s("C"), None, None).unwrap();
    assert!(c.created_at.ends_with(" UTC"));
    assert_eq!(c.created_at, c.updated_at);
    let changed = update_campaign_impl(&mut db, c.id.clone(), Some(s("D")), None, None, None).unwrap();
    assert!(changed.updated_at.ends_with(" UTC"));
    assert_eq!(changed.created_at, c.created_at);
}

#[test]
fn updates_of_missing_rows_are_not_found() {
    let mut db = Database::new();
    let e = update_character_impl(&mut db, s("nope"), None, None, None, None, None, None, None, None, None, None)
        .unwrap_err();
    assert_eq!(e.to_string(), "Not found: Character nope not found");
    assert_eq!(update_campaign_impl(&mut db, s("nope"), None, None, None, None).unwrap_err().to_string(), "Not found: Campaign nope not found");
    assert_eq!(get_timeline_event(&db, s("nope")).unwrap_err().to_string(), "Not found: Timeline event nope not found");
    assert_eq!(get_organization(&db, s("x")).unwrap_err().to_string(), "Not found: Organization x not found");
    assert_eq!(get_quest(&db, s("x")).unwrap_err().to_string(), "Not found: Quest x not found");
    assert_eq!(get_hero(&db, s("x")).unwrap_err().to_string(), "Not found: Hero x not found");
    assert_eq!(get_player(&db, s("x")).unwrap_err().to_string(), "Not found: Player x not found");
    assert_eq!(get_session(&db, s("x")).unwrap_err().to_string(), "Not found: Session x not found");
    assert_eq!(get_secret(&db, s("x")).unwrap_err().to_string(), "Not found: Secret x not found");
    assert_eq!(
        update_token_counts_impl(&mut db, s("x"), 1, 1, 1, 1).unwrap_err().to_string(),
        "Not found: Conversation x not found"
    );
}

#[test]
fn deletes_tell_whether_there_was_a_row() {
    let mut db = Database::new();
    let c = campaign(&mut db, "C");
    let h = create_hero(&mut db, c.clone(), s("H"), None, None, None, None).unwrap();
    let sec = create_secret(&mut db, c.clone(), s("S"), s("c"), None, None).unwrap();
    let ev = create_timeline_event(&mut db, c.clone(), s("E"), s("d"), None, None, None).unwrap();
    let o = create_organization(&mut db, c, s("O"), None, None, None, None).unwrap();
    assert!(delete_hero(&mut db, h.id.clone()).unwrap());
    assert!(!delete_hero(&mut db, h.id).unwrap());
    assert!(delete_secret(&mut db, sec.id.clone()).unwrap());
    assert!(!delete_secret(&mut db, sec.id).unwrap());
    assert!(delete_timeline_event(&mut db, ev.id.clone()).unwrap());
    assert!(!delete_timeline_event(&mut db, ev.id).unwrap());
    assert!(delete_organization(&mut db, o.id.clone()).unwrap());
    assert!(!delete_organization(&mut db, o.id).unwrap());
    assert!(!delete_player(&mut db, s("nobody")).unwrap());
    assert!(!delete_session(&mut db, s("none")).unwrap());
    assert!(!delete_tag_impl(&mut db, s("none")).unwrap());
    assert!(!delete_location_impl(&mut db, s("none")).unwrap());
}

// ---------- defaults on creation

#[test]
fn creation_fills_in_the_defaults() {
    let mut db = Database::new();
    let c = campaign(&mut db, "C");
    let q = create_quest(&mut db, c.clone(), s("Q"), None, None, Some(s("hook"))).unwrap();
    assert_eq!((q.status.as_str(), q.plot_type.as_str()), ("planned", "side"));
    assert_eq!(q.hook, Some(s("hook")));
    assert_eq!(q.objectives, None);
    let main = create_quest(&mut db, c.clone(), s("M"), Some(s("main")), None, None).unwrap();
    assert_eq!(main.plot_type, "main");

    let ev = create_timeline_event(&mut db, c.clone(), s("E"), s("Third Age"), None, None, None).unwrap();
    assert_eq!((ev.sort_order, ev.significance.as_str(), ev.is_public), (0, "local", true));
    let ev2 = create_timeline_event(&mut db, c.clone(), s("F"), s("later"), Some(-5), Some(s("d")), Some(s("world"))).unwrap();
    assert_eq!((ev2.sort_order, ev2.significance.as_str()), (-5, "world"));

    let l = create_location(&mut db, c.clone(), s("L"), None, None, None).unwrap();
    assert_eq!((l.location_type.as_str(), l.detail_level), ("settlement", 0));
    assert_eq!(l.gm_notes, None);

    let o = create_organization(&mut db, c.clone(), s("O"), None, None, None, None).unwrap();
    assert_eq!(o.org_type, "other");
    assert!(o.is_active);

    let h = create_hero(&mut db, c.clone(), s("H"), None, None, None, None).unwrap();
    assert!(h.is_active);
    assert_eq!(h.backstory, None);

    let sec = create_secret(&mut db, c.clone(), s("S"), s("c"), Some(s("character")), Some(s("x"))).unwrap();
    assert!(!sec.revealed);
    assert_eq!(sec.known_by, None);
    assert_eq!(sec.revealed_in_session, None);
    assert_eq!(sec.related_entity_type, Some(s("character")));

    let r = create_relationship_impl(&mut db, c.clone(), s("a"), s("1"), s("b"), s("2"), s("knows"), None, None, Some(-100)).unwrap();
    assert!(!r.is_bidirectional);
    assert!(r.is_public);
    assert_eq!(r.strength, Some(-100));
    // the range of a strength is a convention, not a rule
    let strong = create_relationship_impl(&mut db, c.clone(), s("a"), s("1"), s("b"), s("2"), s("owes"), None, Some(true), Some(1000)).unwrap();
    assert_eq!(strong.strength, Some(1000));
    assert!(strong.is_bidirectional);

    let camp = get_campaign_impl(&db, c).unwrap();
    assert_eq!(camp.settings_json, None);
    assert_eq!(camp.created_at, camp.updated_at);
}

#[test]
fn validated_creation_refuses_before_storing() {
    let mut db = Database::new();
    let c = campaign(&mut db, "C");
    let e = create_organization(&mut db, c.clone(), s(""), Some(s("club")), None, None, None).unwrap_err();
    let name_line = "name: name must be 1-200 characters";
    let type_line = "org_type: must be one of: government, guild, religion, military, criminal, mercantile, academic, secret_society, family, other";
    let text = e.to_string();
    assert!(
        text == format!("Validation error: {name_line}, {type_line}")
            || text == format!("Validation error: {type_line}, {name_line}"),
        "{text}"
    );
    assert!(list_organizations(&db, c.clone()).unwrap().is_empty());
    // the rules are checked before the campaign is looked up
    let input = CreateOrganizationInput {
        name: s(""),
        campaign_id: s("nowhere"),
        org_type: s("guild"),
        description: None,
        goals: None,
        resources: None,
    };
    assert!(matches!(create_organization_impl(&mut db, input), Err(AppError::Validation(_))));
    let e = create_location(&mut db, c, s("L"), Some(s("cave")), None, None).unwrap_err();
    assert!(matches!(e, AppError::Validation(_)));
}

// ---------- listing orders

#[test]
fn sessions_are_listed_by_number_and_events_by_place() {
    let mut db = Database::new();
    let c = campaign(&mut db, "C");
    for n in [3, 1, 2] {
        create_session(&mut db, c.clone(), n, None, None).unwrap();
    }
    let numbers: Vec<i32> = list_sessions(&db, c.clone()).unwrap().iter().map(|x| x.session_number).collect();
    assert_eq!(numbers, vec![1, 2, 3]);
    for (title, place) in [("c", 30), ("a", -10), ("b", 20)] {
        create_timeline_event(&mut db, c.clone(), s(title), s("d"), Some(place), None, None).unwrap();
    }
    let titles: Vec<String> = list_timeline_events(&db, c).unwrap().iter().map(|x| x.title.clone()).collect();
    assert_eq!(titles, vec![s("a"), s("b"), s("c")]);
}

#[test]
fn names_are_listed_in_code_point_order_and_ties_keep_their_order() {
    let mut db = Database::new();
    let c = campaign(&mut db, "C");
    let first = create_player(&mut db, c.clone(), s("bob"), Some(s("first")), None).unwrap();
    create_player(&mut db, c.clone(), s("Zed"), None, None).unwrap();
    let second = create_player(&mut db, c.clone(), s("bob"), Some(s("second")), None).unwrap();
    create_player(&mut db, c.clone(), s("alice"), None, None).unwrap();
    let listed = list_players(&db, c).unwrap();
    let names: Vec<&str> = listed.iter().map(|p| p.name.as_str()).collect();
    assert_eq!(names, vec!["Zed", "alice", "bob", "bob"]);
    assert_eq!(listed[2].id, first.id);
    assert_eq!(listed[3].id, second.id);
}

#[test]
fn secrets_are_listed_newest_first() {
    let mut db = Database::new();
    let c = campaign(&mut db, "C");
    let a = create_secret(&mut db, c.clone(), s("a"), s("x"), None, None).unwrap();
    let b = create_secret(&mut db, c.clone(), s("b"), s("y"), None, None).unwrap();
    let listed = list_secrets(&db, c).unwrap();
    assert_eq!(listed.len(), 2);
    if a.created_at != b.created_at {
        assert_eq!(listed[0].id, b.id);
        assert_eq!(listed[1].id, a.id);
    }
    let changed = update_secret(&mut db, a.id.clone(), None, None, None, None, Some(s("all")), Some(true), Some(4)).unwrap();
    assert!(changed.revealed);
    assert_eq!(changed.revealed_in_session, Some(4));
    assert_eq!(changed.known_by, Some(s("all")));
    assert_eq!(get_secret(&db, a.id).unwrap().title, "a");
}

// ---------- sessions and dates

#[test]
fn session_dates_are_read_or_left_out() {
    let mut db = Database::new();
    let c = campaign(&mut db, "C");
    let dated = create_session(&mut db, c.clone(), 1, Some(s("One")), Some(s("2024-03-09"))).unwrap();
    assert_eq!(dated.date, Some(s("2024-03-09")));
    let undated = create_session(&mut db, c.clone(), 2, None, Some(s("next week"))).unwrap();
    assert_eq!(undated.date, None);
    let none = create_session(&mut db, c, 3, None, None).unwrap();
    assert_eq!(none.date, None);
    // a date that cannot be read replaces the stored one by none
    let cleared = update_session(&mut db, dated.id.clone(), None, None, Some(s("garbage")), None, None, None, None).unwrap();
    assert_eq!(cleared.date, None);
    let set = update_session(&mut db, dated.id.clone(), None, None, Some(s("2025-12-31")), None, None, None, None).unwrap();
    assert_eq!(set.date, Some(s("2025-12-31")));
    let kept = update_session(&mut db, dated.id, None, Some(s("Renamed")), None, None, None, None, None).unwrap();
    assert_eq!(kept.date, Some(s("2025-12-31")));
    assert_eq!(kept.title, Some(s("Renamed")));
}

// ---------- players, timeline, quests: change what is given

#[test]
fn updates_change_what_is_given() {
    let mut db = Database::new();
    let c = campaign(&mut db, "C");
    let p = create_player(&mut db, c.clone(), s("Pat"), Some(s("combat")), None).unwrap();
    let changed = update_player(&mut db, p.id.clone(), None, None, Some(s("spiders")), Some(s("late"))).unwrap();
    assert_eq!(changed.name, "Pat");
    assert_eq!(changed.preferences, Some(s("combat")));
    assert_eq!(changed.boundaries, Some(s("spiders")));
    assert_eq!(changed.notes, Some(s("late")));
    assert_eq!(changed.created_at, p.created_at);

    let ev = create_timeline_event(&mut db, c.clone(), s("E"), s("d"), None, None, None).unwrap();
    let ev2 = update_timeline_event(&mut db, ev.id, Some(s("F")), None, Some(9), None, None, Some(false)).unwrap();
    assert_eq!((ev2.title.as_str(), ev2.sort_order, ev2.is_public, ev2.date_display.as_str()), ("F", 9, false, "d"));

    let q = create_quest(&mut db, c, s("Q"), None, None, None).unwrap();
    let q2 = update_quest(&mut db, q.id, None, Some(s("active")), None, None, None, None, None, None, Some(s("gold"))).unwrap();
    assert_eq!((q2.status.as_str(), q2.plot_type.as_str()), ("active", "side"));
    assert_eq!(q2.reward, Some(s("gold")));
}

// ---------- the assistant's conversations

#[test]
fn first_message_takes_place_one_and_clearing_starts_over() {
    let mut db = Database::new();
    let c = campaign(&mut db, "C");
    let conv = get_or_create_conversation_impl(&mut db, c.clone(), s("sidebar")).unwrap();
    let other = get_or_create_conversation_impl(&mut db, c.clone(), s("fullpage")).unwrap();
    let m1 = add_message_impl(&mut db, conv.id.clone(), s("user"), s("one"), None, None, None, None).unwrap();
    let o1 = add_message_impl(&mut db, other.id.clone(), s("user"), s("else"), None, None, None, None).unwrap();
    let m2 = add_message_impl(&mut db, conv.id.clone(), s("assistant"), s("two"), None, None, None, None).unwrap();
    assert_eq!((m1.message_order, m2.message_order, o1.message_order), (1, 2, 1));
    assert!(clear_conversation_impl(&mut db, conv.id.clone()).unwrap());
    assert!(!clear_conversation_impl(&mut db, conv.id.clone()).unwrap());
    let m3 = add_message_impl(&mut db, conv.id.clone(), s("user"), s("again"), None, None, None, None).unwrap();
    assert_eq!(m3.message_order, 1);
    let loaded = load_conversation_impl(&db, c.clone(), s("fullpage")).unwrap().unwrap();
    assert_eq!(loaded.messages.len(), 1);
    assert_eq!(loaded.messages[0].content, "else");
    assert_eq!(loaded.conversation.id, other.id);
}

#[test]
fn a_message_needs_its_conversation() {
    let mut db = Database::new();
    let e = add_message_impl(&mut db, s("no-conversation"), s("user"), s("hi"), None, None, None, None).unwrap_err();
    assert_eq!(e.to_string(), "Database error: FOREIGN KEY constraint failed");
}

#[test]
fn token_totals_add_up_and_refuse_to_overflow() {
    let mut db = Database::new();
    let c = campaign(&mut db, "C");
    let conv = get_or_create_conversation_impl(&mut db, c.clone(), s("sidebar")).unwrap();
    let t = Timestamp { seconds: 1431648000, nanos: 0 };
    let once = add_token_counts(&mut db, &conv.id, 100, 50, 25, 10, t).unwrap();
    assert_eq!(once.updated_at, "2015-05-15 00:00:00 UTC");
    let twice = update_token_counts_impl(&mut db, conv.id.clone(), 200, 100, 50, 20).unwrap();
    assert_eq!(
        (twice.total_input_tokens, twice.total_output_tokens, twice.total_cache_read_tokens, twice.total_cache_creation_tokens),
        (300, 150, 75, 30)
    );
    let less = update_token_counts_impl(&mut db, conv.id.clone(), -300, 0, 0, 0).unwrap();
    assert_eq!(less.total_input_tokens, 0);
    let e = update_token_counts_impl(&mut db, conv.id.clone(), 1, i32::MAX, 0, 0).unwrap_err();
    assert!(matches!(e, AppError::Internal(_)));
    let same = get_or_create_conversation_impl(&mut db, c, s("sidebar")).unwrap();
    assert_eq!(same.id, conv.id);
    assert_eq!(same.total_output_tokens, 150);
    assert_eq!(same.total_input_tokens, 0);
}
