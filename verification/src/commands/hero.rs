//! Heroes: storing, reading, listing, changing and removing them.

use crate::clock::Timestamp;
use crate::db::{Database, Snapshot};
use crate::entity::hero::{Hero, HeroPatch};
use crate::error::{foreign_key_text, not_found_text, unique_text, AppError};
use crate::ident::{is_random_uuid_text, new_id};
use crate::search_index::{
    lemma_mirror_insert, lemma_mirror_remove, lemma_mirror_replace, projection, without_entry,
    Indexed, IndexedKind,
};
use crate::table::{
    find, has_key, has_other_key, index_of, lemma_filter_keys, lemma_find_at, lemma_push_keys,
    lemma_update_keys, listed, owned_by, sort_rows, without_key, Row,
};
use vstd::prelude::*;

verus! {

/// A hero as it is handed to the caller.
#[derive(Debug)]
pub struct HeroResponse {
    pub id: String,
    pub campaign_id: String,
    pub player_id: Option<String>,
    pub name: String,
    pub lineage: Option<String>,
    pub classes: Option<String>,
    pub description: Option<String>,
    pub backstory: Option<String>,
    pub goals: Option<String>,
    pub bonds: Option<String>,
    pub is_active: bool,
    pub created_at: String,
    pub updated_at: String,
}

impl HeroResponse {
    /// Whether the response shows `row`: every field as stored, times and
    /// dates as their display texts.
    pub open spec fn represents(self, row: Hero) -> bool {
        &&& self.id == row.id
        &&& self.campaign_id == row.campaign_id
        &&& self.player_id == row.player_id
        &&& self.name == row.name
        &&& self.lineage == row.lineage
        &&& self.classes == row.classes
        &&& self.description == row.description
        &&& self.backstory == row.backstory
        &&& self.goals == row.goals
        &&& self.bonds == row.bonds
        &&& self.is_active == row.is_active
        &&& self.created_at@ == row.created_at.text()
        &&& self.updated_at@ == row.updated_at.text()
    }

    /// Whether the responses show `rows`, one for one and in order.
    pub open spec fn represent_all(out: Seq<HeroResponse>, rows: Seq<Hero>) -> bool {
        out.len() == rows.len() && forall|i: int|
            0 <= i < out.len() ==> (#[trigger] out[i]).represents(rows[i])
    }

    /// Whether the responses list `of`: they show its rows in listing order,
    /// rows that may stand either way in the order in which they are stored.
    pub open spec fn list(out: Seq<HeroResponse>, of: Seq<Hero>) -> bool {
        HeroResponse::represent_all(out, listed(of))
    }

    /// The response that shows `model`.
    pub fn from(model: Hero) -> (r: HeroResponse)
        ensures
            r.represents(model),
    {
        let created_at = model.created_at.to_string();
        let updated_at = model.updated_at.to_string();
        HeroResponse {
            id: model.id,
            campaign_id: model.campaign_id,
            player_id: model.player_id,
            name: model.name,
            lineage: model.lineage,
            classes: model.classes,
            description: model.description,
            backstory: model.backstory,
            goals: model.goals,
            bonds: model.bonds,
            is_active: model.is_active,
            created_at,
            updated_at,
        }
    }

    /// The responses that show `rows`, one for one and in order.
    pub fn from_all(rows: Vec<Hero>) -> (out: Vec<HeroResponse>)
        ensures
            HeroResponse::represent_all(out@, rows@),
    {
        let mut out: Vec<HeroResponse> = Vec::new();
        let mut i: usize = 0;
        while i < rows.len()
            invariant
                i <= rows.len(),
                out@.len() == i,
                forall|k: int| 0 <= k < i ==> (#[trigger] out@[k]).represents(rows@[k]),
            decreases rows.len() - i,
        {
            out.push(HeroResponse::from(rows[i].copy()));
            i += 1;
        }
        out
    }
}

/// The store with one more hero and its index entry.
pub open spec fn with_hero(s: Snapshot, row: Hero) -> Snapshot {
    Snapshot {
        heroes: s.heroes.push(row),
        search_index: s.search_index.push(projection(row)),
        ..s
    }
}

/// The store with the hero at position `i` replaced by `row`, and its
/// index entry by that of `row`.
pub open spec fn with_hero_replaced(s: Snapshot, i: int, row: Hero) -> Snapshot {
    Snapshot {
        heroes: s.heroes.update(i, row),
        search_index: without_entry(s.search_index, IndexedKind::Hero, row.key()).push(
            projection(row),
        ),
        ..s
    }
}

/// Why the store refuses to take `row`, if it does: the identifier is
/// taken, or a rule of the store would be broken.
pub open spec fn hero_refusal(s: Snapshot, row: Hero) -> Option<Seq<char>> {
    if has_key(s.heroes, row.key()) {
        Some(unique_text("heroes.id"@))
    } else if !has_key(s.campaigns, row.owner()) {
        Some(foreign_key_text())
    } else if row.player_id matches Some(p) && !has_key(s.players, p@) {
        Some(foreign_key_text())
    } else {
        None
    }
}

/// Storing a hero that the store does not refuse keeps the rules of the
/// store.
pub proof fn lemma_with_hero_wf(s: Snapshot, row: Hero)
    requires
        s.wf(),
        hero_refusal(s, row) is None,
    ensures
        with_hero(s, row).wf(),
{
    lemma_push_keys(s.heroes, row);
    lemma_mirror_insert(s.search_index, s.heroes, row);
    s.lemma_entry_added(s.search_index, projection(row));
}

/// Why the store refuses to put `row` in the place of the hero at
/// position `i`, if it does.
pub open spec fn hero_change_refusal(s: Snapshot, i: int, row: Hero) -> Option<Seq<char>> {
    if row.player_id matches Some(p) && !has_key(s.players, p@) {
        Some(foreign_key_text())
    } else {
        None
    }
}

/// A patch that asks no change is never refused: the hero as it is
/// stored breaks no rule of the store.
pub proof fn lemma_empty_hero_patch_is_accepted(
    s: Snapshot,
    i: int,
    patch: HeroPatch,
    now: Timestamp,
)
    requires
        s.wf(),
        0 <= i < s.heroes.len(),
        patch.is_empty(),
    ensures
        hero_change_refusal(s, i, s.heroes[i].patched(patch, now)) is None,
{
}

/// Replacing a hero by one of the same identity and campaign keeps the
/// rules of the store.
pub proof fn lemma_with_hero_replaced_wf(s: Snapshot, i: int, row: Hero)
    requires
        s.wf(),
        0 <= i < s.heroes.len(),
        row.key() == s.heroes[i].key(),
        row.owner() == s.heroes[i].owner(),
        hero_change_refusal(s, i, row) is None,
    ensures
        with_hero_replaced(s, i, row).wf(),
{
    lemma_update_keys(s.heroes, i, row);
    lemma_mirror_replace(s.search_index, s.heroes, i, row);
    s.lemma_entry_removed(IndexedKind::Hero, row.key());
    s.lemma_entry_added(
        without_entry(s.search_index, IndexedKind::Hero, row.key()),
        projection(row),
    );
    let after = s.heroes.update(i, row);
    assert forall|k: int| 0 <= k < after.len() implies has_key(
        s.campaigns,
        #[trigger] after[k].owner(),
    ) by {
        assert(after[k].owner() == s.heroes[k].owner());
    }
    let heroes = s.heroes.update(i, row);
    assert forall|k: int| 0 <= k < heroes.len() implies match (#[trigger] heroes[k]).player_id {
        Some(p) => has_key(s.players, p@),
        None => true,
    } by {
        if k != i {
            assert(heroes[k] == s.heroes[k]);
        }
    }
}

/// The store without the hero `id` and without its index entry.
pub open spec fn without_hero(s: Snapshot, id: Seq<char>) -> Snapshot {
    Snapshot {
        heroes: without_key(s.heroes, id),
        search_index: without_entry(s.search_index, IndexedKind::Hero, id),
        ..s
    }
}

/// Removing a hero keeps the rules of the store.
pub proof fn lemma_without_hero_wf(s: Snapshot, id: Seq<char>)
    requires
        s.wf(),
    ensures
        without_hero(s, id).wf(),
{
    lemma_filter_keys(s.heroes, has_other_key::<Hero>(id));
    lemma_mirror_remove(s.search_index, s.heroes, id);
    s.lemma_entry_removed(IndexedKind::Hero, id);
    let fewer = without_key(s.heroes, id);
    assert forall|k: int| 0 <= k < fewer.len() implies has_key(
        s.campaigns,
        #[trigger] fewer[k].owner(),
    ) by {
        assert(s.heroes.contains(fewer[k]));
    }
    assert forall|k: int| 0 <= k < fewer.len() implies match (#[trigger] fewer[k]).player_id {
        Some(p) => has_key(s.players, p@),
        None => true,
    } by {
        assert(s.heroes.contains(fewer[k]));
        let j = choose|j: int| 0 <= j < s.heroes.len() && s.heroes[j] == fewer[k];
        assert(s.heroes[j] == fewer[k]);
    }
}

/// Whether `row` names a player that is not stored.
fn player_missing(db: &Database, row: &Hero) -> (r: bool)
    ensures
        r == (row.player_id matches Some(p) && !has_key(db@.players, p@)),
{
    match &row.player_id {
        Some(p) => !db.players.contains(p),
        None => false,
    }
}

/// Stores `row`, unless the store refuses it.
pub fn insert_hero(db: &mut Database, row: Hero) -> (r: Result<(), AppError>)
    requires
        old(db).wf(),
    ensures
        final(db).wf(),
        match r {
            Ok(()) => {
                &&& hero_refusal(old(db)@, row) is None
                &&& final(db)@ == with_hero(old(db)@, row)
            },
            Err(e) => {
                &&& e is Database
                &&& Some(e.detail()) == hero_refusal(old(db)@, row)
                &&& final(db)@ == old(db)@
            },
        },
{
    if db.heroes.contains(&row.id) {
        return Err(AppError::unique("heroes.id"));
    }
    if !db.campaigns.contains(&row.campaign_id) {
        return Err(AppError::foreign_key());
    }
    if player_missing(db, &row) {
        return Err(AppError::foreign_key());
    }
    let entry = row.project();
    proof {
        lemma_with_hero_wf(db@, row);
    }
    db.heroes.insert(row);
    db.search_index.insert(entry);
    Ok(())
}

/// Creates a hero of the campaign `campaign_id` under a fresh identifier:
/// active, with the current time as the time of its making and of its last
/// change.
pub fn create_hero(
    db: &mut Database,
    campaign_id: String,
    name: String,
    player_id: Option<String>,
    lineage: Option<String>,
    classes: Option<String>,
    description: Option<String>,
) -> (r: Result<HeroResponse, AppError>)
    requires
        old(db).wf(),
    ensures
        final(db).wf(),
        match r {
            Ok(response) => {
                &&& find(final(db)@.heroes, response.id@) matches Some(row)
                &&& row == Hero::created(
                    row.id,
                    row.created_at,
                    campaign_id,
                    player_id,
                    name,
                    lineage,
                    classes,
                    description,
                )
                &&& is_random_uuid_text(row.id@)
                &&& row.created_at.is_clock_time()
                &&& hero_refusal(old(db)@, row) is None
                &&& response.represents(row)
                &&& final(db)@ == with_hero(old(db)@, row)
            },
            Err(e) => {
                &&& final(db)@ == old(db)@
                &&& e is Database
                &&& exists|row: Hero|
                    {
                        &&& #[trigger] hero_refusal(old(db)@, row) == Some(e.detail())
                        &&& row == Hero::created(
                            row.id,
                            row.created_at,
                            campaign_id,
                            player_id,
                            name,
                            lineage,
                            classes,
                            description,
                        )
                    }
            },
        },
{
    let id = new_id();
    let now = Timestamp::now();
    let row = Hero::new(id, now, campaign_id, player_id, name, lineage, classes, description);
    let response = HeroResponse::from(row.copy());
    let ghost made = row;
    proof {
        lemma_push_keys(db@.heroes, row);
    }
    match insert_hero(db, row) {
        Ok(()) => Ok(response),
        Err(e) => {
            assert(hero_refusal(old(db)@, made) == Some(e.detail()));
            Err(e)
        },
    }
}

/// The hero `id`.
pub fn get_hero(db: &Database, id: String) -> (r: Result<HeroResponse, AppError>)
    requires
        db.wf(),
    ensures
        match r {
            Ok(response) => find(db@.heroes, id@) matches Some(row) && response.represents(row),
            Err(e) => {
                &&& find(db@.heroes, id@) is None
                &&& e is NotFound
                &&& e.detail() == not_found_text("Hero"@, id@)
            },
        },
{
    match db.heroes.get(&id) {
        Some(row) => Ok(HeroResponse::from(row)),
        None => Err(AppError::not_found("Hero", id.as_str())),
    }
}

/// The heroes of the campaign `campaign_id`, by name.
pub fn list_heroes(db: &Database, campaign_id: String) -> (r: Result<Vec<HeroResponse>, AppError>)
    requires
        db.wf(),
    ensures
        r matches Ok(out) && HeroResponse::list(out@, owned_by(db@.heroes, campaign_id@)),
{
    let rows = sort_rows(db.heroes.owned(&campaign_id));
    Ok(HeroResponse::from_all(rows))
}

/// Applies `patch` to the hero `id` at the time `now`.
pub fn change_hero(
    db: &mut Database,
    id: &String,
    patch: HeroPatch,
    now: Timestamp,
) -> (r: Result<HeroResponse, AppError>)
    requires
        old(db).wf(),
    ensures
        final(db).wf(),
        match r {
            Ok(response) => {
                &&& find(old(db)@.heroes, id@) matches Some(before)
                &&& hero_change_refusal(
                    old(db)@,
                    index_of(old(db)@.heroes, id@),
                    before.patched(patch, now),
                ) is None
                &&& find(final(db)@.heroes, id@) == Some(before.patched(patch, now))
                &&& response.represents(before.patched(patch, now))
                &&& final(db)@ == with_hero_replaced(
                    old(db)@,
                    index_of(old(db)@.heroes, id@),
                    before.patched(patch, now),
                )
            },
            Err(e) => {
                &&& final(db)@ == old(db)@
                &&& match find(old(db)@.heroes, id@) {
                    None => e is NotFound && e.detail() == not_found_text(
                        "Hero"@,
                        id@,
                    ),
                    Some(before) => e is Database && Some(e.detail()) == hero_change_refusal(
                        old(db)@,
                        index_of(old(db)@.heroes, id@),
                        before.patched(patch, now),
                    ),
                }
            },
        },
{
    match db.heroes.position(id) {
        None => Err(AppError::not_found("Hero", id.as_str())),
        Some(i) => {
            let before = db.heroes.row(i).copy();
            proof {
                lemma_find_at(db@.heroes, i as int);
                before.lemma_patch_keeps_identity(patch, now);
            }
            let row = before.apply(patch, now);
            if player_missing(db, &row) {
                return Err(AppError::foreign_key());
            }
            let entry = row.project();
            let response = HeroResponse::from(row.copy());
            proof {
                lemma_update_keys(db@.heroes, i as int, row);
                lemma_with_hero_replaced_wf(db@, i as int, row);
            }
            db.heroes.replace(i, row);
            db.search_index.remove(IndexedKind::Hero, id);
            db.search_index.insert(entry);
            Ok(response)
        },
    }
}

/// Changes the hero `id`: each argument that is given replaces the
/// stored value, what is left out stays, and the time of the last change
/// becomes the current time.
pub fn update_hero(
    db: &mut Database,
    id: String,
    name: Option<String>,
    player_id: Option<String>,
    lineage: Option<String>,
    classes: Option<String>,
    description: Option<String>,
    backstory: Option<String>,
    goals: Option<String>,
    bonds: Option<String>,
    is_active: Option<bool>,
) -> (r: Result<HeroResponse, AppError>)
    requires
        old(db).wf(),
    ensures
        final(db).wf(),
        ({
            let patch = HeroPatch {
                name,
                player_id,
                lineage,
                classes,
                description,
                backstory,
                goals,
                bonds,
                is_active,
            };
            match find(old(db)@.heroes, id@) {
                None => {
                    &&& final(db)@ == old(db)@
                    &&& r matches Err(e) && e is NotFound && e.detail() == not_found_text(
                        "Hero"@,
                        id@,
                    )
                },
                Some(before) => match hero_change_refusal(
                    old(db)@,
                    index_of(old(db)@.heroes, id@),
                    before.patched(patch, before.updated_at),
                ) {
                    Some(reason) => {
                        &&& final(db)@ == old(db)@
                        &&& r matches Err(e) && e is Database && e.detail() == reason
                    },
                    None => {
                        &&& r matches Ok(response)
                        &&& find(final(db)@.heroes, id@) matches Some(after)
                        &&& after == before.patched(patch, after.updated_at)
                        &&& after.updated_at.is_clock_time()
                        &&& response.represents(after)
                        &&& final(db)@ == with_hero_replaced(
                            old(db)@,
                            index_of(old(db)@.heroes, id@),
                            after,
                        )
                    },
                },
            }
        }),
{
    let patch = HeroPatch {
        name,
        player_id,
        lineage,
        classes,
        description,
        backstory,
        goals,
        bonds,
        is_active,
    };
    let now = Timestamp::now();
    change_hero(db, &id, patch, now)
}

/// Removes the hero `id`; tells whether there was one.
pub fn delete_hero(db: &mut Database, id: String) -> (r: Result<bool, AppError>)
    requires
        old(db).wf(),
    ensures
        final(db).wf(),
        r matches Ok(deleted) && deleted == has_key(old(db)@.heroes, id@),
        final(db)@ == without_hero(old(db)@, id@),
{
    proof {
        lemma_without_hero_wf(db@, id@);
    }
    let deleted = db.heroes.remove_key(&id);
    db.search_index.remove(IndexedKind::Hero, &id);
    Ok(deleted)
}

} // verus!
