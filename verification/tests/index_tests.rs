use loreweaver::commands::campaign::{create_campaign_impl, delete_campaign_impl};
use loreweaver::commands::character::{
    create_character, create_character_impl, delete_character_impl, update_character_impl,
};
use loreweaver::commands::hero::{create_hero, update_hero};
use loreweaver::commands::location::{create_location, delete_location_impl, update_location_impl};
use loreweaver::commands::organization::{create_organization, update_organization};
use loreweaver::commands::player::{create_player, delete_player};
use loreweaver::commands::quest::{create_quest, delete_quest, update_quest};
use loreweaver::commands::session::{create_session, delete_session, update_session};
use loreweaver::commands::validation::CreateCharacterInput;
use loreweaver::db::Database;
use loreweaver::search_index::IndexedKind;

fn campaign(db: &mut Database, name: &str) -> String {
    create_campaign_impl(db, name.to_string(), None, None).expect("campaign").id
}

#[test]
fn kinds_have_their_labels() {
    assert_eq!(IndexedKind::Character.as_str(), "character");
    assert_eq!(IndexedKind::Location.as_str(), "location");
    assert_eq!(IndexedKind::Organization.as_str(), "organization");
    assert_eq!(IndexedKind::Quest.as_str(), "quest");
    assert_eq!(IndexedKind::Hero.as_str(), "hero");
    assert_eq!(IndexedKind::Session.as_str(), "session");
}

#[test]
fn character_entry_joins_description_personality_motivations() {
    let mut db = Database::new();
    let c = campaign(&mut db, "C");
    let input = CreateCharacterInput {
        name: "Gandalf".to_string(),
        campaign_id: c.clone(),
        lineage: Some("Maiar".to_string()),
        occupation: None,
        description: Some("A wise wizard".to_string()),
        personality: Some("Kind".to_string()),
        motivations: Some("Defeat Sauron".to_string()),
        secrets: Some("Bears a ring".to_string()),
        voice_notes: None,
    };
    let ch = create_character_impl(&mut db, input).expect("character");
    let entry = db.index_entry(IndexedKind::Character, &ch.id).expect("entry");
    assert_eq!(entry.kind, IndexedKind::Character);
    assert_eq!(entry.entity_id, ch.id);
    assert_eq!(entry.campaign_id, c);
    assert_eq!(entry.name, "Gandalf");
    assert_eq!(entry.content, "A wise wizard Kind Defeat Sauron");
}

#[test]
fn missing_fields_are_empty_not_skipped() {
    let mut db = Database::new();
    let c = campaign(&mut db, "C");
    let ch = create_character(&mut db, c.clone(), "Bare".to_string(), None, None, None).expect("character");
    let entry = db.index_entry(IndexedKind::Character, &ch.id).expect("entry");
    assert_eq!(entry.content, "  ");
    let only_description =
        create_character(&mut db, c, "Half".to_string(), None, None, Some("tall".to_string())).expect("character");
    let entry = db.index_entry(IndexedKind::Character, &only_description.id).expect("entry");
    assert_eq!(entry.content, "tall  ");
}

#[test]
fn index_follows_create_update_delete() {
    let mut db = Database::new();
    let c = campaign(&mut db, "C");
    let ch = create_character(
        &mut db,
        c.clone(),
        "Smaug".to_string(),
        None,
        None,
        Some("A fearsome dragon".to_string()),
    )
    .expect("character");
    assert_eq!(db.index_entries(&c).len(), 1);
    assert_eq!(db.index_entry(IndexedKind::Character, &ch.id).expect("entry").content, "A fearsome dragon  ");

    update_character_impl(
        &mut db,
        ch.id.clone(),
        None,
        None,
        None,
        None,
        Some("A sleeping worm".to_string()),
        None,
        None,
        None,
        None,
        None,
    )
    .expect("update");
    let entries = db.index_entries(&c);
    assert_eq!(entries.len(), 1);
    assert_eq!(entries[0].content, "A sleeping worm  ");
    assert!(!entries[0].content.contains("dragon"));

    assert!(delete_character_impl(&mut db, ch.id.clone()).expect("delete"));
    assert!(db.index_entry(IndexedKind::Character, &ch.id).is_none());
    assert!(db.index_entries(&c).is_empty());
}

#[test]
fn update_of_the_name_reaches_the_index() {
    let mut db = Database::new();
    let c = campaign(&mut db, "C");
    let ch = create_character(&mut db, c, "Strider".to_string(), None, None, None).expect("character");
    update_character_impl(
        &mut db,
        ch.id.clone(),
        Some("Aragorn".to_string()),
        None,
        None,
        None,
        None,
        None,
        None,
        None,
        None,
        None,
    )
    .expect("update");
    assert_eq!(db.index_entry(IndexedKind::Character, &ch.id).expect("entry").name, "Aragorn");
}

#[test]
fn entries_are_scoped_to_their_campaign() {
    let mut db = Database::new();
    let c1 = campaign(&mut db, "One");
    let c2 = campaign(&mut db, "Two");
    let a = create_character(&mut db, c1.clone(), "Gandalf".to_string(), None, None, None).expect("a");
    let b = create_character(&mut db, c2.clone(), "Gandalf".to_string(), None, None, None).expect("b");
    let in_one = db.index_entries(&c1);
    let in_two = db.index_entries(&c2);
    assert_eq!(in_one.len(), 1);
    assert_eq!(in_two.len(), 1);
    assert_eq!(in_one[0].entity_id, a.id);
    assert_eq!(in_two[0].entity_id, b.id);
    assert_ne!(in_one[0].entity_id, in_two[0].entity_id);
    assert_eq!(in_one[0].name, in_two[0].name);
}

#[test]
fn each_searchable_kind_has_its_projection() {
    let mut db = Database::new();
    let c = campaign(&mut db, "C");
    let l = create_location(&mut db, c.clone(), "Shire".to_string(), None, None, Some("Green hills".to_string()))
        .expect("location");
    let o = create_organization(
        &mut db,
        c.clone(),
        "Council".to_string(),
        None,
        Some("The wise".to_string()),
        Some("Guard the west".to_string()),
        Some("Rings".to_string()),
    )
    .expect("organization");
    let q = create_quest(&mut db, c.clone(), "Ring".to_string(), None, Some("Destroy it".to_string()), Some("A gift".to_string()))
        .expect("quest");
    let h = create_hero(&mut db, c.clone(), "Frodo".to_string(), None, None, None, Some("A hobbit".to_string()))
        .expect("hero");
    let s = create_session(&mut db, c.clone(), 7, None, None).expect("session");
    let titled = create_session(&mut db, c.clone(), 8, Some("The Bridge".to_string()), None).expect("session");

    let e = db.index_entry(IndexedKind::Location, &l.id).expect("location entry");
    assert_eq!((e.name.as_str(), e.content.as_str()), ("Shire", "Green hills"));
    let e = db.index_entry(IndexedKind::Organization, &o.id).expect("organization entry");
    assert_eq!((e.name.as_str(), e.content.as_str()), ("Council", "The wise Guard the west"));
    let e = db.index_entry(IndexedKind::Quest, &q.id).expect("quest entry");
    assert_eq!((e.name.as_str(), e.content.as_str()), ("Ring", "Destroy it A gift "));
    let e = db.index_entry(IndexedKind::Hero, &h.id).expect("hero entry");
    assert_eq!((e.name.as_str(), e.content.as_str()), ("Frodo", "A hobbit "));
    let e = db.index_entry(IndexedKind::Session, &s.id).expect("session entry");
    assert_eq!((e.name.as_str(), e.content.as_str()), ("Session 7", " "));
    let e = db.index_entry(IndexedKind::Session, &titled.id).expect("session entry");
    assert_eq!(e.name, "The Bridge");
    assert_eq!(db.index_entries(&c).len(), 6);

    // an identifier is looked up under its own kind only
    assert!(db.index_entry(IndexedKind::Character, &l.id).is_none());
    assert!(db.index_entry(IndexedKind::Location, &q.id).is_none());
}

#[test]
fn updates_of_every_kind_replace_the_entry() {
    let mut db = Database::new();
    let c = campaign(&mut db, "C");
    let l = create_location(&mut db, c.clone(), "Shire".to_string(), None, None, None).expect("location");
    update_location_impl(&mut db, l.id.clone(), None, None, None, Some("Hills".to_string()), None, None).expect("update");
    assert_eq!(db.index_entry(IndexedKind::Location, &l.id).expect("entry").content, "Hills");

    let o = create_organization(&mut db, c.clone(), "Council".to_string(), None, None, None, None).expect("organization");
    update_organization(&mut db, o.id.clone(), None, None, None, Some("Peace".to_string()), None, None, None, None)
        .expect("update");
    assert_eq!(db.index_entry(IndexedKind::Organization, &o.id).expect("entry").content, " Peace");

    let q = create_quest(&mut db, c.clone(), "Ring".to_string(), None, None, None).expect("quest");
    update_quest(&mut db, q.id.clone(), None, None, None, None, None, Some("Reach the mountain".to_string()), None, None, None)
        .expect("update");
    assert_eq!(db.index_entry(IndexedKind::Quest, &q.id).expect("entry").content, "  Reach the mountain");

    let h = create_hero(&mut db, c.clone(), "Frodo".to_string(), None, None, None, None).expect("hero");
    update_hero(&mut db, h.id.clone(), None, None, None, None, None, Some("Bag End".to_string()), None, None, None)
        .expect("update");
    assert_eq!(db.index_entry(IndexedKind::Hero, &h.id).expect("entry").content, " Bag End");

    let s = create_session(&mut db, c.clone(), 1, None, None).expect("session");
    update_session(&mut db, s.id.clone(), Some(2), None, None, None, Some("n".to_string()), Some("s".to_string()), None)
        .expect("update");
    let e = db.index_entry(IndexedKind::Session, &s.id).expect("entry");
    assert_eq!((e.name.as_str(), e.content.as_str()), ("Session 2", "n s"));
    assert_eq!(db.index_entries(&c).len(), 5);
}

#[test]
fn deletes_of_every_kind_remove_the_entry() {
    let mut db = Database::new();
    let c = campaign(&mut db, "C");
    let l = create_location(&mut db, c.clone(), "Shire".to_string(), None, None, None).expect("location");
    let q = create_quest(&mut db, c.clone(), "Ring".to_string(), None, None, None).expect("quest");
    let s = create_session(&mut db, c.clone(), 1, None, None).expect("session");
    assert_eq!(db.index_entries(&c).len(), 3);
    assert!(delete_location_impl(&mut db, l.id.clone()).expect("delete"));
    assert!(delete_quest(&mut db, q.id.clone()).expect("delete"));
    assert!(delete_session(&mut db, s.id.clone()).expect("delete"));
    assert!(db.index_entries(&c).is_empty());
}

#[test]
fn removing_a_campaign_removes_its_entries_only() {
    let mut db = Database::new();
    let c1 = campaign(&mut db, "One");
    let c2 = campaign(&mut db, "Two");
    create_character(&mut db, c1.clone(), "A".to_string(), None, None, None).expect("a");
    create_location(&mut db, c1.clone(), "L".to_string(), None, None, None).expect("l");
    let kept = create_character(&mut db, c2.clone(), "B".to_string(), None, None, None).expect("b");
    assert!(delete_campaign_impl(&mut db, c1.clone()).expect("delete"));
    assert!(db.index_entries(&c1).is_empty());
    let left = db.index_entries(&c2);
    assert_eq!(left.len(), 1);
    assert_eq!(left[0].entity_id, kept.id);
}

#[test]
fn releasing_a_hero_keeps_its_entry() {
    let mut db = Database::new();
    let c = campaign(&mut db, "C");
    let p = create_player(&mut db, c.clone(), "Sam".to_string(), None, None).expect("player");
    let h = create_hero(&mut db, c.clone(), "Frodo".to_string(), Some(p.id.clone()), None, None, Some("d".to_string()))
        .expect("hero");
    assert!(delete_player(&mut db, p.id).expect("delete"));
    let e = db.index_entry(IndexedKind::Hero, &h.id).expect("entry");
    assert_eq!(e.content, "d ");
    assert_eq!(db.index_entries(&c).len(), 1);
}
