//! Quests: storing, reading, listing, changing and removing them.

use crate::clock::Timestamp;
use crate::db::{Database, Snapshot};
use crate::entity::quest::{Quest, QuestPatch};
use crate::error::{foreign_key_text, not_found_text, unique_text, AppError};
use crate::ident::{is_random_uuid_text, new_id};
use crate::search_index::{
    lemma_mirror_insert, lemma_mirror_remove, lemma_mirror_replace, projection, without_entry,
    Indexed, IndexedKind,
};
use crate::table::{
    find, has_key, has_other_key, index_of, lemma_filter_keys, lemma_find_at, lemma_push_keys,
    lemma_update_keys, listed, owned_by, sort_rows, without_key, Row,
};
use vstd::prelude::*;
use vstd::string::*;

verus! {

/// A quest as it is handed to the caller.
#[derive(Debug)]
pub struct QuestResponse {
    pub id: String,
    pub campaign_id: String,
    pub name: String,
    pub status: String,
    pub plot_type: String,
    pub description: Option<String>,
    pub hook: Option<String>,
    pub objectives: Option<String>,
    pub complications: Option<String>,
    pub resolution: Option<String>,
    pub reward: Option<String>,
    pub created_at: String,
    pub updated_at: String,
}

impl QuestResponse {
    /// Whether the response shows `row`: every field as stored, times and
    /// dates as their display texts.
    pub open spec fn represents(self, row: Quest) -> bool {
        &&& self.id == row.id
        &&& self.campaign_id == row.campaign_id
        &&& self.name == row.name
        &&& self.status == row.status
        &&& self.plot_type == row.plot_type
        &&& self.description == row.description
        &&& self.hook == row.hook
        &&& self.objectives == row.objectives
        &&& self.complications == row.complications
        &&& self.resolution == row.resolution
        &&& self.reward == row.reward
        &&& self.created_at@ == row.created_at.text()
        &&& self.updated_at@ == row.updated_at.text()
    }

    /// Whether the responses show `rows`, one for one and in order.
    pub open spec fn represent_all(out: Seq<QuestResponse>, rows: Seq<Quest>) -> bool {
        out.len() == rows.len() && forall|i: int|
            0 <= i < out.len() ==> (#[trigger] out[i]).represents(rows[i])
    }

    /// Whether the responses list `of`: they show its rows in listing order,
    /// rows that may stand either way in the order in which they are stored.
    pub open spec fn list(out: Seq<QuestResponse>, of: Seq<Quest>) -> bool {
        QuestResponse::represent_all(out, listed(of))
    }

    /// The response that shows `model`.
    pub fn from(model: Quest) -> (r: QuestResponse)
        ensures
            r.represents(model),
    {
        let created_at = model.created_at.to_string();
        let updated_at = model.updated_at.to_string();
        QuestResponse {
            id: model.id,
            campaign_id: model.campaign_id,
            name: model.name,
            status: model.status,
            plot_type: model.plot_type,
            description: model.description,
            hook: model.hook,
            objectives: model.objectives,
            complications: model.complications,
            resolution: model.resolution,
            reward: model.reward,
            created_at,
            updated_at,
        }
    }

    /// The responses that show `rows`, one for one and in order.
    pub fn from_all(rows: Vec<Quest>) -> (out: Vec<QuestResponse>)
        ensures
            QuestResponse::represent_all(out@, rows@),
    {
        let mut out: Vec<QuestResponse> = Vec::new();
        let mut i: usize = 0;
        while i < rows.len()
            invariant
                i <= rows.len(),
                out@.len() == i,
                forall|k: int| 0 <= k < i ==> (#[trigger] out@[k]).represents(rows@[k]),
            decreases rows.len() - i,
        {
            out.push(QuestResponse::from(rows[i].copy()));
            i += 1;
        }
        out
    }
}

/// The store with one more quest and its index entry.
pub open spec fn with_quest(s: Snapshot, row: Quest) -> Snapshot {
    Snapshot {
        quests: s.quests.push(row),
        search_index: s.search_index.push(projection(row)),
        ..s
    }
}

/// The store with the quest at position `i` replaced by `row`, and its
/// index entry by that of `row`.
pub open spec fn with_quest_replaced(s: Snapshot, i: int, row: Quest) -> Snapshot {
    Snapshot {
        quests: s.quests.update(i, row),
        search_index: without_entry(s.search_index, IndexedKind::Quest, row.key()).push(
            projection(row),
        ),
        ..s
    }
}

/// Why the store refuses to take `row`, if it does: the identifier is
/// taken, or a rule of the store would be broken.
pub open spec fn quest_refusal(s: Snapshot, row: Quest) -> Option<Seq<char>> {
    if has_key(s.quests, row.key()) {
        Some(unique_text("quests.id"@))
    } else if !has_key(s.campaigns, row.owner()) {
        Some(foreign_key_text())
    } else {
        None
    }
}

/// Storing a quest that the store does not refuse keeps the rules of the
/// store.
pub proof fn lemma_with_quest_wf(s: Snapshot, row: Quest)
    requires
        s.wf(),
        quest_refusal(s, row) is None,
    ensures
        with_quest(s, row).wf(),
{
    lemma_push_keys(s.quests, row);
    lemma_mirror_insert(s.search_index, s.quests, row);
    s.lemma_entry_added(s.search_index, projection(row));
}

/// Replacing a quest by one of the same identity and campaign keeps the
/// rules of the store.
pub proof fn lemma_with_quest_replaced_wf(s: Snapshot, i: int, row: Quest)
    requires
        s.wf(),
        0 <= i < s.quests.len(),
        row.key() == s.quests[i].key(),
        row.owner() == s.quests[i].owner(),
    ensures
        with_quest_replaced(s, i, row).wf(),
{
    lemma_update_keys(s.quests, i, row);
    lemma_mirror_replace(s.search_index, s.quests, i, row);
    s.lemma_entry_removed(IndexedKind::Quest, row.key());
    s.lemma_entry_added(
        without_entry(s.search_index, IndexedKind::Quest, row.key()),
        projection(row),
    );
    let after = s.quests.update(i, row);
    assert forall|k: int| 0 <= k < after.len() implies has_key(
        s.campaigns,
        #[trigger] after[k].owner(),
    ) by {
        assert(after[k].owner() == s.quests[k].owner());
    }
}

/// The store without the quest `id` and without its index entry.
pub open spec fn without_quest(s: Snapshot, id: Seq<char>) -> Snapshot {
    Snapshot {
        quests: without_key(s.quests, id),
        search_index: without_entry(s.search_index, IndexedKind::Quest, id),
        ..s
    }
}

/// Removing a quest keeps the rules of the store.
pub proof fn lemma_without_quest_wf(s: Snapshot, id: Seq<char>)
    requires
        s.wf(),
    ensures
        without_quest(s, id).wf(),
{
    lemma_filter_keys(s.quests, has_other_key::<Quest>(id));
    lemma_mirror_remove(s.search_index, s.quests, id);
    s.lemma_entry_removed(IndexedKind::Quest, id);
    let fewer = without_key(s.quests, id);
    assert forall|k: int| 0 <= k < fewer.len() implies has_key(
        s.campaigns,
        #[trigger] fewer[k].owner(),
    ) by {
        assert(s.quests.contains(fewer[k]));
    }
}

/// Stores `row`, unless the store refuses it.
pub fn insert_quest(db: &mut Database, row: Quest) -> (r: Result<(), AppError>)
    requires
        old(db).wf(),
    ensures
        final(db).wf(),
        match r {
            Ok(()) => {
                &&& quest_refusal(old(db)@, row) is None
                &&& final(db)@ == with_quest(old(db)@, row)
            },
            Err(e) => {
                &&& e is Database
                &&& Some(e.detail()) == quest_refusal(old(db)@, row)
                &&& final(db)@ == old(db)@
            },
        },
{
    if db.quests.contains(&row.id) {
        return Err(AppError::unique("quests.id"));
    }
    if !db.campaigns.contains(&row.campaign_id) {
        return Err(AppError::foreign_key());
    }
    let entry = row.project();
    proof {
        lemma_with_quest_wf(db@, row);
    }
    db.quests.insert(row);
    db.search_index.insert(entry);
    Ok(())
}

/// The quest that the arguments of a creation describe, under the
/// identifier `id` and made at `now`: what is left out takes its default.
pub fn draft_quest(
    id: String,
    now: Timestamp,
    campaign_id: String,
    name: String,
    plot_type: Option<String>,
    description: Option<String>,
    hook: Option<String>,
) -> (row: Quest)
    ensures
        row == Quest::created(
            id,
            now,
            campaign_id,
            name,
            row.status,
            row.plot_type,
            description,
            hook,
        ),
        row.status@ == "planned"@,
        row.plot_type@ == match plot_type {
            Some(p) => p@,
            None => "side"@,
        },
{
    let status = String::from_str("planned");
    let plot = match plot_type {
        Some(p) => p,
        None => String::from_str("side"),
    };
    Quest::new(id, now, campaign_id, name, status, plot, description, hook)
}

/// Creates a quest of the campaign `campaign_id` under a fresh identifier:
/// planned, a side plot unless `plot_type` says otherwise, with the current
/// time as the time of its making and of its last change.
pub fn create_quest(
    db: &mut Database,
    campaign_id: String,
    name: String,
    plot_type: Option<String>,
    description: Option<String>,
    hook: Option<String>,
) -> (r: Result<QuestResponse, AppError>)
    requires
        old(db).wf(),
    ensures
        final(db).wf(),
        match r {
            Ok(response) => {
                &&& find(final(db)@.quests, response.id@) matches Some(row)
                &&& row == Quest::created(
                    row.id,
                    row.created_at,
                    campaign_id,
                    name,
                    row.status,
                    row.plot_type,
                    description,
                    hook,
                )
                &&& row.status@ == "planned"@
                &&& row.plot_type@ == match plot_type {
                    Some(p) => p@,
                    None => "side"@,
                }
                &&& is_random_uuid_text(row.id@)
                &&& row.created_at.is_clock_time()
                &&& quest_refusal(old(db)@, row) is None
                &&& response.represents(row)
                &&& final(db)@ == with_quest(old(db)@, row)
            },
            Err(e) => {
                &&& final(db)@ == old(db)@
                &&& e is Database
                &&& exists|row: Quest|
                    {
                        &&& #[trigger] quest_refusal(old(db)@, row) == Some(e.detail())
                        &&& row == Quest::created(
                            row.id,
                            row.created_at,
                            campaign_id,
                            name,
                            row.status,
                            row.plot_type,
                            description,
                            hook,
                        )
                        &&& row.status@ == "planned"@
                        &&& row.plot_type@ == match plot_type {
                            Some(p) => p@,
                            None => "side"@,
                        }
                    }
            },
        },
{
    let id = new_id();
    let now = Timestamp::now();
    let row = draft_quest(id, now, campaign_id, name, plot_type, description, hook);
    let response = QuestResponse::from(row.copy());
    let ghost made = row;
    proof {
        lemma_push_keys(db@.quests, row);
    }
    match insert_quest(db, row) {
        Ok(()) => Ok(response),
        Err(e) => {
            assert(quest_refusal(old(db)@, made) == Some(e.detail()));
            Err(e)
        },
    }
}

/// The quest `id`.
pub fn get_quest(db: &Database, id: String) -> (r: Result<QuestResponse, AppError>)
    requires
        db.wf(),
    ensures
        match r {
            Ok(response) => find(db@.quests, id@) matches Some(row) && response.represents(row),
            Err(e) => {
                &&& find(db@.quests, id@) is None
                &&& e is NotFound
                &&& e.detail() == not_found_text("Quest"@, id@)
            },
        },
{
    match db.quests.get(&id) {
        Some(row) => Ok(QuestResponse::from(row)),
        None => Err(AppError::not_found("Quest", id.as_str())),
    }
}

/// The quests of the campaign `campaign_id`, by name.
pub fn list_quests(db: &Database, campaign_id: String) -> (r: Result<Vec<QuestResponse>, AppError>)
    requires
        db.wf(),
    ensures
        r matches Ok(out) && QuestResponse::list(out@, owned_by(db@.quests, campaign_id@)),
{
    let rows = sort_rows(db.quests.owned(&campaign_id));
    Ok(QuestResponse::from_all(rows))
}

/// Applies `patch` to the quest `id` at the time `now`.
pub fn change_quest(
    db: &mut Database,
    id: &String,
    patch: QuestPatch,
    now: Timestamp,
) -> (r: Result<QuestResponse, AppError>)
    requires
        old(db).wf(),
    ensures
        final(db).wf(),
        match r {
            Ok(response) => {
                &&& find(old(db)@.quests, id@) matches Some(before)
                &&& find(final(db)@.quests, id@) == Some(before.patched(patch, now))
                &&& response.represents(before.patched(patch, now))
                &&& final(db)@ == with_quest_replaced(
                    old(db)@,
                    index_of(old(db)@.quests, id@),
                    before.patched(patch, now),
                )
            },
            Err(e) => {
                &&& final(db)@ == old(db)@
                &&& match find(old(db)@.quests, id@) {
                    None => e is NotFound && e.detail() == not_found_text(
                        "Quest"@,
                        id@,
                    ),
                    Some(_) => false,
                }
            },
        },
{
    match db.quests.position(id) {
        None => Err(AppError::not_found("Quest", id.as_str())),
        Some(i) => {
            let before = db.quests.row(i).copy();
            proof {
                lemma_find_at(db@.quests, i as int);
                before.lemma_patch_keeps_identity(patch, now);
            }
            let row = before.apply(patch, now);
            let entry = row.project();
            let response = QuestResponse::from(row.copy());
            proof {
                lemma_update_keys(db@.quests, i as int, row);
                lemma_with_quest_replaced_wf(db@, i as int, row);
            }
            db.quests.replace(i, row);
            db.search_index.remove(IndexedKind::Quest, id);
            db.search_index.insert(entry);
            Ok(response)
        },
    }
}

/// Changes the quest `id`: each argument that is given replaces the
/// stored value, what is left out stays, and the time of the last change
/// becomes the current time.
pub fn update_quest(
    db: &mut Database,
    id: String,
    name: Option<String>,
    status: Option<String>,
    plot_type: Option<String>,
    description: Option<String>,
    hook: Option<String>,
    objectives: Option<String>,
    complications: Option<String>,
    resolution: Option<String>,
    reward: Option<String>,
) -> (r: Result<QuestResponse, AppError>)
    requires
        old(db).wf(),
    ensures
        final(db).wf(),
        ({
            let patch = QuestPatch {
                name,
                status,
                plot_type,
                description,
                hook,
                objectives,
                complications,
                resolution,
                reward,
            };
            match find(old(db)@.quests, id@) {
                None => {
                    &&& final(db)@ == old(db)@
                    &&& r matches Err(e) && e is NotFound && e.detail() == not_found_text(
                        "Quest"@,
                        id@,
                    )
                },
                Some(before) => {
                    &&& r matches Ok(response)
                    &&& find(final(db)@.quests, id@) matches Some(after)
                    &&& after == before.patched(patch, after.updated_at)
                    &&& after.updated_at.is_clock_time()
                    &&& response.represents(after)
                    &&& final(db)@ == with_quest_replaced(
                        old(db)@,
                        index_of(old(db)@.quests, id@),
                        after,
                    )
                },
            }
        }),
{
    let patch = QuestPatch {
        name,
        status,
        plot_type,
        description,
        hook,
        objectives,
        complications,
        resolution,
        reward,
    };
    let now = Timestamp::now();
    change_quest(db, &id, patch, now)
}

/// Removes the quest `id`; tells whether there was one.
pub fn delete_quest(db: &mut Database, id: String) -> (r: Result<bool, AppError>)
    requires
        old(db).wf(),
    ensures
        final(db).wf(),
        r matches Ok(deleted) && deleted == has_key(old(db)@.quests, id@),
        final(db)@ == without_quest(old(db)@, id@),
{
    proof {
        lemma_without_quest_wf(db@, id@);
    }
    let deleted = db.quests.remove_key(&id);
    db.search_index.remove(IndexedKind::Quest, &id);
    Ok(deleted)
}

} // verus!
