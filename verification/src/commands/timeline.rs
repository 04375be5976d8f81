//! Timeline events: storing, reading, listing, changing and removing them.

use crate::clock::Timestamp;
use crate::db::{Database, Snapshot};
use crate::entity::timeline::{TimelineEvent, TimelineEventPatch};
use crate::error::{foreign_key_text, not_found_text, unique_text, AppError};
use crate::ident::{is_random_uuid_text, new_id};
use crate::table::{
    find, has_key, has_other_key, index_of, lemma_filter_keys, lemma_find_at, lemma_push_keys,
    lemma_update_keys, listed, owned_by, sort_rows, without_key, Row,
};
use vstd::prelude::*;
use vstd::string::*;

verus! {

/// A timeline event as it is handed to the caller.
#[derive(Debug)]
pub struct TimelineEventResponse {
    pub id: String,
    pub campaign_id: String,
    pub date_display: String,
    pub sort_order: i64,
    pub title: String,
    pub description: Option<String>,
    pub significance: String,
    pub is_public: bool,
    pub created_at: String,
    pub updated_at: String,
}

impl TimelineEventResponse {
    /// Whether the response shows `row`: every field as stored, times and
    /// dates as their display texts.
    pub open spec fn represents(self, row: TimelineEvent) -> bool {
        &&& self.id == row.id
        &&& self.campaign_id == row.campaign_id
        &&& self.date_display == row.date_display
        &&& self.sort_order == row.sort_order
        &&& self.title == row.title
        &&& self.description == row.description
        &&& self.significance == row.significance
        &&& self.is_public == row.is_public
        &&& self.created_at@ == row.created_at.text()
        &&& self.updated_at@ == row.updated_at.text()
    }

    /// Whether the responses show `rows`, one for one and in order.
    pub open spec fn represent_all(
        out: Seq<TimelineEventResponse>,
        rows: Seq<TimelineEvent>,
    ) -> bool {
        out.len() == rows.len() && forall|i: int|
            0 <= i < out.len() ==> (#[trigger] out[i]).represents(rows[i])
    }

    /// Whether the responses list `of`: they show its rows in listing order,
    /// rows that may stand either way in the order in which they are stored.
    pub open spec fn list(out: Seq<TimelineEventResponse>, of: Seq<TimelineEvent>) -> bool {
        TimelineEventResponse::represent_all(out, listed(of))
    }

    /// The response that shows `model`.
    pub fn from(model: TimelineEvent) -> (r: TimelineEventResponse)
        ensures
            r.represents(model),
    {
        let created_at = model.created_at.to_string();
        let updated_at = model.updated_at.to_string();
        TimelineEventResponse {
            id: model.id,
            campaign_id: model.campaign_id,
            date_display: model.date_display,
            sort_order: model.sort_order,
            title: model.title,
            description: model.description,
            significance: model.significance,
            is_public: model.is_public,
            created_at,
            updated_at,
        }
    }

    /// The responses that show `rows`, one for one and in order.
    pub fn from_all(rows: Vec<TimelineEvent>) -> (out: Vec<TimelineEventResponse>)
        ensures
            TimelineEventResponse::represent_all(out@, rows@),
    {
        let mut out: Vec<TimelineEventResponse> = Vec::new();
        let mut i: usize = 0;
        while i < rows.len()
            invariant
                i <= rows.len(),
                out@.len() == i,
                forall|k: int| 0 <= k < i ==> (#[trigger] out@[k]).represents(rows@[k]),
            decreases rows.len() - i,
        {
            out.push(TimelineEventResponse::from(rows[i].copy()));
            i += 1;
        }
        out
    }
}

/// The store with one more timeline event.
pub open spec fn with_timeline_event(s: Snapshot, row: TimelineEvent) -> Snapshot {
    Snapshot {
        timeline_events: s.timeline_events.push(row),
        ..s
    }
}

/// The store with the timeline event at position `i` replaced by `row`.
pub open spec fn with_timeline_event_replaced(s: Snapshot, i: int, row: TimelineEvent) -> Snapshot {
    Snapshot {
        timeline_events: s.timeline_events.update(i, row),
        ..s
    }
}

/// Why the store refuses to take `row`, if it does: the identifier is
/// taken, or a rule of the store would be broken.
pub open spec fn timeline_event_refusal(s: Snapshot, row: TimelineEvent) -> Option<Seq<char>> {
    if has_key(s.timeline_events, row.key()) {
        Some(unique_text("timeline_events.id"@))
    } else if !has_key(s.campaigns, row.owner()) {
        Some(foreign_key_text())
    } else {
        None
    }
}

/// Storing a timeline event that the store does not refuse keeps the rules of the
/// store.
pub proof fn lemma_with_timeline_event_wf(s: Snapshot, row: TimelineEvent)
    requires
        s.wf(),
        timeline_event_refusal(s, row) is None,
    ensures
        with_timeline_event(s, row).wf(),
{
    lemma_push_keys(s.timeline_events, row);
}

/// Replacing a timeline event by one of the same identity and campaign keeps the
/// rules of the store.
pub proof fn lemma_with_timeline_event_replaced_wf(s: Snapshot, i: int, row: TimelineEvent)
    requires
        s.wf(),
        0 <= i < s.timeline_events.len(),
        row.key() == s.timeline_events[i].key(),
        row.owner() == s.timeline_events[i].owner(),
    ensures
        with_timeline_event_replaced(s, i, row).wf(),
{
    lemma_update_keys(s.timeline_events, i, row);
    let after = s.timeline_events.update(i, row);
    assert forall|k: int| 0 <= k < after.len() implies has_key(
        s.campaigns,
        #[trigger] after[k].owner(),
    ) by {
        assert(after[k].owner() == s.timeline_events[k].owner());
    }
}

/// The store without the timeline event `id`.
pub open spec fn without_timeline_event(s: Snapshot, id: Seq<char>) -> Snapshot {
    Snapshot {
        timeline_events: without_key(s.timeline_events, id),
        ..s
    }
}

/// Removing a timeline event keeps the rules of the store.
pub proof fn lemma_without_timeline_event_wf(s: Snapshot, id: Seq<char>)
    requires
        s.wf(),
    ensures
        without_timeline_event(s, id).wf(),
{
    lemma_filter_keys(s.timeline_events, has_other_key::<TimelineEvent>(id));
    let fewer = without_key(s.timeline_events, id);
    assert forall|k: int| 0 <= k < fewer.len() implies has_key(
        s.campaigns,
        #[trigger] fewer[k].owner(),
    ) by {
        assert(s.timeline_events.contains(fewer[k]));
    }
}

/// Stores `row`, unless the store refuses it.
pub fn insert_timeline_event(db: &mut Database, row: TimelineEvent) -> (r: Result<(), AppError>)
    requires
        old(db).wf(),
    ensures
        final(db).wf(),
        match r {
            Ok(()) => {
                &&& timeline_event_refusal(old(db)@, row) is None
                &&& final(db)@ == with_timeline_event(old(db)@, row)
            },
            Err(e) => {
                &&& e is Database
                &&& Some(e.detail()) == timeline_event_refusal(old(db)@, row)
                &&& final(db)@ == old(db)@
            },
        },
{
    if db.timeline_events.contains(&row.id) {
        return Err(AppError::unique("timeline_events.id"));
    }
    if !db.campaigns.contains(&row.campaign_id) {
        return Err(AppError::foreign_key());
    }
    proof {
        lemma_with_timeline_event_wf(db@, row);
    }
    db.timeline_events.insert(row);
    Ok(())
}

/// The timeline event that the arguments of a creation describe, under the
/// identifier `id` and made at `now`: what is left out takes its default.
pub fn draft_timeline_event(
    id: String,
    now: Timestamp,
    campaign_id: String,
    title: String,
    date_display: String,
    sort_order: Option<i64>,
    description: Option<String>,
    significance: Option<String>,
) -> (row: TimelineEvent)
    ensures
        row == TimelineEvent::created(
            id,
            now,
            campaign_id,
            date_display,
            match sort_order {
                        Some(n) => n,
                        None => 0,
                    },
            title,
            description,
            row.significance,
        ),
        row.significance@ == match significance {
            Some(s) => s@,
            None => "local"@,
        },
{
    let place: i64 = match sort_order {
        Some(n) => n,
        None => 0,
    };
    let weight = match significance {
        Some(s) => s,
        None => String::from_str("local"),
    };
    TimelineEvent::new(id, now, campaign_id, date_display, place, title, description, weight)
}

/// Creates an event of the campaign `campaign_id` under a fresh identifier:
/// public, at place 0 of the order and of local significance unless the
/// caller says otherwise, with the current time as the time of its making
/// and of its last change.
pub fn create_timeline_event(
    db: &mut Database,
    campaign_id: String,
    title: String,
    date_display: String,
    sort_order: Option<i64>,
    description: Option<String>,
    significance: Option<String>,
) -> (r: Result<TimelineEventResponse, AppError>)
    requires
        old(db).wf(),
    ensures
        final(db).wf(),
        match r {
            Ok(response) => {
                &&& find(final(db)@.timeline_events, response.id@) matches Some(row)
                &&& row == TimelineEvent::created(
                    row.id,
                    row.created_at,
                    campaign_id,
                    date_display,
                    match sort_order {
                        Some(n) => n,
                        None => 0,
                    },
                    title,
                    description,
                    row.significance,
                )
                &&& row.significance@ == match significance {
                    Some(s) => s@,
                    None => "local"@,
                }
                &&& is_random_uuid_text(row.id@)
                &&& row.created_at.is_clock_time()
                &&& timeline_event_refusal(old(db)@, row) is None
                &&& response.represents(row)
                &&& final(db)@ == with_timeline_event(old(db)@, row)
            },
            Err(e) => {
                &&& final(db)@ == old(db)@
                &&& e is Database
                &&& exists|row: TimelineEvent|
                    {
                        &&& #[trigger] timeline_event_refusal(old(db)@, row) == Some(e.detail())
                        &&& row == TimelineEvent::created(
                            row.id,
                            row.created_at,
                            campaign_id,
                            date_display,
                            match sort_order {
                                Some(n) => n,
                                None => 0,
                            },
                            title,
                            description,
                            row.significance,
                        )
                        &&& row.significance@ == match significance {
                            Some(s) => s@,
                            None => "local"@,
                        }
                    }
            },
        },
{
    let id = new_id();
    let now = Timestamp::now();
    let row = draft_timeline_event(
        id,
        now,
        campaign_id,
        title,
        date_display,
        sort_order,
        description,
        significance,
    );
    let response = TimelineEventResponse::from(row.copy());
    let ghost made = row;
    proof {
        lemma_push_keys(db@.timeline_events, row);
    }
    match insert_timeline_event(db, row) {
        Ok(()) => Ok(response),
        Err(e) => {
            assert(timeline_event_refusal(old(db)@, made) == Some(e.detail()));
            Err(e)
        },
    }
}

/// The timeline event `id`.
pub fn get_timeline_event(db: &Database, id: String) -> (r: Result<TimelineEventResponse, AppError>)
    requires
        db.wf(),
    ensures
        match r {
            Ok(response) => find(db@.timeline_events, id@) matches Some(row) && response.represents(
                row,
            ),
            Err(e) => {
                &&& find(db@.timeline_events, id@) is None
                &&& e is NotFound
                &&& e.detail() == not_found_text("Timeline event"@, id@)
            },
        },
{
    match db.timeline_events.get(&id) {
        Some(row) => Ok(TimelineEventResponse::from(row)),
        None => Err(AppError::not_found("Timeline event", id.as_str())),
    }
}

/// The timeline events of the campaign `campaign_id`, by their place in the order of events.
pub fn list_timeline_events(
    db: &Database,
    campaign_id: String,
) -> (r: Result<Vec<TimelineEventResponse>, AppError>)
    requires
        db.wf(),
    ensures
        r matches Ok(out) && TimelineEventResponse::list(
            out@,
            owned_by(db@.timeline_events, campaign_id@),
        ),
{
    let rows = sort_rows(db.timeline_events.owned(&campaign_id));
    Ok(TimelineEventResponse::from_all(rows))
}

/// Applies `patch` to the timeline event `id` at the time `now`.
pub fn change_timeline_event(
    db: &mut Database,
    id: &String,
    patch: TimelineEventPatch,
    now: Timestamp,
) -> (r: Result<TimelineEventResponse, AppError>)
    requires
        old(db).wf(),
    ensures
        final(db).wf(),
        match r {
            Ok(response) => {
                &&& find(old(db)@.timeline_events, id@) matches Some(before)
                &&& find(final(db)@.timeline_events, id@) == Some(before.patched(patch, now))
                &&& response.represents(before.patched(patch, now))
                &&& final(db)@ == with_timeline_event_replaced(
                    old(db)@,
                    index_of(old(db)@.timeline_events, id@),
                    before.patched(patch, now),
                )
            },
            Err(e) => {
                &&& final(db)@ == old(db)@
                &&& match find(old(db)@.timeline_events, id@) {
                    None => e is NotFound && e.detail() == not_found_text(
                        "Timeline event"@,
                        id@,
                    ),
                    Some(_) => false,
                }
            },
        },
{
    match db.timeline_events.position(id) {
        None => Err(AppError::not_found("Timeline event", id.as_str())),
        Some(i) => {
            let before = db.timeline_events.row(i).copy();
            proof {
                lemma_find_at(db@.timeline_events, i as int);
                before.lemma_patch_keeps_identity(patch, now);
            }
            let row = before.apply(patch, now);
            let response = TimelineEventResponse::from(row.copy());
            proof {
                lemma_update_keys(db@.timeline_events, i as int, row);
                lemma_with_timeline_event_replaced_wf(db@, i as int, row);
            }
            db.timeline_events.replace(i, row);
            Ok(response)
        },
    }
}

/// Changes the timeline event `id`: each argument that is given replaces the
/// stored value, what is left out stays, and the time of the last change
/// becomes the current time.
pub fn update_timeline_event(
    db: &mut Database,
    id: String,
    title: Option<String>,
    date_display: Option<String>,
    sort_order: Option<i64>,
    description: Option<String>,
    significance: Option<String>,
    is_public: Option<bool>,
) -> (r: Result<TimelineEventResponse, AppError>)
    requires
        old(db).wf(),
    ensures
        final(db).wf(),
        ({
            let patch = TimelineEventPatch {
                title,
                date_display,
                sort_order,
                description,
                significance,
                is_public,
            };
            match find(old(db)@.timeline_events, id@) {
                None => {
                    &&& final(db)@ == old(db)@
                    &&& r matches Err(e) && e is NotFound && e.detail() == not_found_text(
                        "Timeline event"@,
                        id@,
                    )
                },
                Some(before) => {
                    &&& r matches Ok(response)
                    &&& find(final(db)@.timeline_events, id@) matches Some(after)
                    &&& after == before.patched(patch, after.updated_at)
                    &&& after.updated_at.is_clock_time()
                    &&& response.represents(after)
                    &&& final(db)@ == with_timeline_event_replaced(
                        old(db)@,
                        index_of(old(db)@.timeline_events, id@),
                        after,
                    )
                },
            }
        }),
{
    let patch = TimelineEventPatch {
        title,
        date_display,
        sort_order,
        description,
        significance,
        is_public,
    };
    let now = Timestamp::now();
    change_timeline_event(db, &id, patch, now)
}

/// Removes the timeline event `id`; tells whether there was one.
pub fn delete_timeline_event(db: &mut Database, id: String) -> (r: Result<bool, AppError>)
    requires
        old(db).wf(),
    ensures
        final(db).wf(),
        r matches Ok(deleted) && deleted == has_key(old(db)@.timeline_events, id@),
        final(db)@ == without_timeline_event(old(db)@, id@),
{
    proof {
        lemma_without_timeline_event_wf(db@, id@);
    }
    let deleted = db.timeline_events.remove_key(&id);
    Ok(deleted)
}

} // verus!
