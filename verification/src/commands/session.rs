//! Sessions: storing, reading, listing, changing and removing them.

use crate::clock::{CalendarDate, Timestamp};
use crate::db::{Database, Snapshot};
use crate::entity::session::{Session, SessionPatch};
use crate::error::{foreign_key_text, not_found_text, unique_text, AppError};
use crate::ident::{is_random_uuid_text, new_id};
use crate::search_index::{
    lemma_mirror_insert, lemma_mirror_remove, lemma_mirror_replace, projection, without_entry,
    Indexed, IndexedKind,
};
use crate::table::{
    find, has_key, has_other_key, index_of, lemma_filter_keys, lemma_find_at, lemma_push_keys,
    lemma_update_keys, listed, owned_by, sort_rows, without_key, Row,
};
use crate::text::opt_chars;
use vstd::prelude::*;

verus! {

/// A session as it is handed to the caller.
#[derive(Debug)]
pub struct SessionResponse {
    pub id: String,
    pub campaign_id: String,
    pub session_number: i32,
    pub date: Option<String>,
    pub title: Option<String>,
    pub planned_content: Option<String>,
    pub notes: Option<String>,
    pub summary: Option<String>,
    pub highlights: Option<String>,
    pub created_at: String,
    pub updated_at: String,
}

impl SessionResponse {
    /// Whether the response shows `row`: every field as stored, times and
    /// dates as their display texts.
    pub open spec fn represents(self, row: Session) -> bool {
        &&& self.id == row.id
        &&& self.campaign_id == row.campaign_id
        &&& self.session_number == row.session_number
        &&& opt_chars(self.date) == match row.date {
            Some(d) => Some(d.text()),
            None => None,
        }
        &&& self.title == row.title
        &&& self.planned_content == row.planned_content
        &&& self.notes == row.notes
        &&& self.summary == row.summary
        &&& self.highlights == row.highlights
        &&& self.created_at@ == row.created_at.text()
        &&& self.updated_at@ == row.updated_at.text()
    }

    /// Whether the responses show `rows`, one for one and in order.
    pub open spec fn represent_all(out: Seq<SessionResponse>, rows: Seq<Session>) -> bool {
        out.len() == rows.len() && forall|i: int|
            0 <= i < out.len() ==> (#[trigger] out[i]).represents(rows[i])
    }

    /// Whether the responses list `of`: they show its rows in listing order,
    /// rows that may stand either way in the order in which they are stored.
    pub open spec fn list(out: Seq<SessionResponse>, of: Seq<Session>) -> bool {
        SessionResponse::represent_all(out, listed(of))
    }

    /// The response that shows `model`.
    pub fn from(model: Session) -> (r: SessionResponse)
        ensures
            r.represents(model),
    {
        let date = match model.date {
            Some(d) => Some(d.to_string()),
            None => None,
        };
        let created_at = model.created_at.to_string();
        let updated_at = model.updated_at.to_string();
        SessionResponse {
            id: model.id,
            campaign_id: model.campaign_id,
            session_number: model.session_number,
            date,
            title: model.title,
            planned_content: model.planned_content,
            notes: model.notes,
            summary: model.summary,
            highlights: model.highlights,
            created_at,
            updated_at,
        }
    }

    /// The responses that show `rows`, one for one and in order.
    pub fn from_all(rows: Vec<Session>) -> (out: Vec<SessionResponse>)
        ensures
            SessionResponse::represent_all(out@, rows@),
    {
        let mut out: Vec<SessionResponse> = Vec::new();
        let mut i: usize = 0;
        while i < rows.len()
            invariant
                i <= rows.len(),
                out@.len() == i,
                forall|k: int| 0 <= k < i ==> (#[trigger] out@[k]).represents(rows@[k]),
            decreases rows.len() - i,
        {
            out.push(SessionResponse::from(rows[i].copy()));
            i += 1;
        }
        out
    }
}

/// The store with one more session and its index entry.
pub open spec fn with_session(s: Snapshot, row: Session) -> Snapshot {
    Snapshot {
        sessions: s.sessions.push(row),
        search_index: s.search_index.push(projection(row)),
        ..s
    }
}

/// The store with the session at position `i` replaced by `row`, and its
/// index entry by that of `row`.
pub open spec fn with_session_replaced(s: Snapshot, i: int, row: Session) -> Snapshot {
    Snapshot {
        sessions: s.sessions.update(i, row),
        search_index: without_entry(s.search_index, IndexedKind::Session, row.key()).push(
            projection(row),
        ),
        ..s
    }
}

/// Why the store refuses to take `row`, if it does: the identifier is
/// taken, or a rule of the store would be broken.
pub open spec fn session_refusal(s: Snapshot, row: Session) -> Option<Seq<char>> {
    if has_key(s.sessions, row.key()) {
        Some(unique_text("sessions.id"@))
    } else if number_taken(
        s.sessions,
        s.sessions.len() as int,
        row.campaign_id@,
        row.session_number,
    ) {
        Some(unique_text("sessions.campaign_id, sessions.session_number"@))
    } else if !has_key(s.campaigns, row.owner()) {
        Some(foreign_key_text())
    } else {
        None
    }
}

/// Storing a session that the store does not refuse keeps the rules of the
/// store.
pub proof fn lemma_with_session_wf(s: Snapshot, row: Session)
    requires
        s.wf(),
        session_refusal(s, row) is None,
    ensures
        with_session(s, row).wf(),
{
    lemma_push_keys(s.sessions, row);
    lemma_mirror_insert(s.search_index, s.sessions, row);
    s.lemma_entry_added(s.search_index, projection(row));
    let sessions = s.sessions.push(row);
    assert forall|a: int, b: int|
        #![trigger sessions[a], sessions[b]]
        0 <= a < sessions.len() && 0 <= b < sessions.len() && a != b implies !(
        sessions[a].campaign_id@ == sessions[b].campaign_id@ && sessions[a].session_number
            == sessions[b].session_number) by {
        if a < s.sessions.len() && b < s.sessions.len() {
            assert(sessions[a] == s.sessions[a] && sessions[b] == s.sessions[b]);
        } else if a < s.sessions.len() {
            assert(sessions[a] == s.sessions[a]);
        } else {
            assert(sessions[b] == s.sessions[b]);
        }
    }
}

/// Why the store refuses to put `row` in the place of the session at
/// position `i`, if it does.
pub open spec fn session_change_refusal(s: Snapshot, i: int, row: Session) -> Option<Seq<char>> {
    if number_taken(s.sessions, i, row.campaign_id@, row.session_number) {
        Some(unique_text("sessions.campaign_id, sessions.session_number"@))
    } else {
        None
    }
}

/// A patch that asks no change is never refused: the session as it is
/// stored breaks no rule of the store.
pub proof fn lemma_empty_session_patch_is_accepted(
    s: Snapshot,
    i: int,
    patch: SessionPatch,
    now: Timestamp,
)
    requires
        s.wf(),
        0 <= i < s.sessions.len(),
        patch.is_empty(),
    ensures
        session_change_refusal(s, i, s.sessions[i].patched(patch, now)) is None,
{
    let row = s.sessions[i].patched(patch, now);
    if number_taken(s.sessions, i, row.campaign_id@, row.session_number) {
        let j = choose|j: int|
            0 <= j < s.sessions.len() && j != i && (#[trigger] s.sessions[j]).campaign_id@
                == row.campaign_id@ && s.sessions[j].session_number == row.session_number;
        assert(!(s.sessions[i].campaign_id@ == s.sessions[j].campaign_id@
            && s.sessions[i].session_number == s.sessions[j].session_number));
    }
}

/// Replacing a session by one of the same identity and campaign keeps the
/// rules of the store.
pub proof fn lemma_with_session_replaced_wf(s: Snapshot, i: int, row: Session)
    requires
        s.wf(),
        0 <= i < s.sessions.len(),
        row.key() == s.sessions[i].key(),
        row.owner() == s.sessions[i].owner(),
        session_change_refusal(s, i, row) is None,
    ensures
        with_session_replaced(s, i, row).wf(),
{
    lemma_update_keys(s.sessions, i, row);
    lemma_mirror_replace(s.search_index, s.sessions, i, row);
    s.lemma_entry_removed(IndexedKind::Session, row.key());
    s.lemma_entry_added(
        without_entry(s.search_index, IndexedKind::Session, row.key()),
        projection(row),
    );
    let after = s.sessions.update(i, row);
    assert forall|k: int| 0 <= k < after.len() implies has_key(
        s.campaigns,
        #[trigger] after[k].owner(),
    ) by {
        assert(after[k].owner() == s.sessions[k].owner());
    }
    let sessions = s.sessions.update(i, row);
    assert forall|a: int, b: int|
        #![trigger sessions[a], sessions[b]]
        0 <= a < sessions.len() && 0 <= b < sessions.len() && a != b implies !(
        sessions[a].campaign_id@ == sessions[b].campaign_id@ && sessions[a].session_number
            == sessions[b].session_number) by {
        if a != i && b != i {
            assert(sessions[a] == s.sessions[a] && sessions[b] == s.sessions[b]);
        } else if a != i {
            assert(sessions[a] == s.sessions[a]);
        } else {
            assert(sessions[b] == s.sessions[b]);
        }
    }
}

/// The store without the session `id` and without its index entry.
pub open spec fn without_session(s: Snapshot, id: Seq<char>) -> Snapshot {
    Snapshot {
        sessions: without_key(s.sessions, id),
        search_index: without_entry(s.search_index, IndexedKind::Session, id),
        ..s
    }
}

/// Removing a session keeps the rules of the store.
pub proof fn lemma_without_session_wf(s: Snapshot, id: Seq<char>)
    requires
        s.wf(),
    ensures
        without_session(s, id).wf(),
{
    lemma_filter_keys(s.sessions, has_other_key::<Session>(id));
    lemma_mirror_remove(s.search_index, s.sessions, id);
    s.lemma_entry_removed(IndexedKind::Session, id);
    let fewer = without_key(s.sessions, id);
    assert forall|k: int| 0 <= k < fewer.len() implies has_key(
        s.campaigns,
        #[trigger] fewer[k].owner(),
    ) by {
        assert(s.sessions.contains(fewer[k]));
    }
    assert forall|a: int, b: int|
        #![trigger fewer[a], fewer[b]]
        0 <= a < fewer.len() && 0 <= b < fewer.len() && a != b implies !(fewer[a].campaign_id@
        == fewer[b].campaign_id@ && fewer[a].session_number == fewer[b].session_number) by {
        assert(s.sessions.contains(fewer[a]) && s.sessions.contains(fewer[b]));
        let p = choose|p: int| 0 <= p < s.sessions.len() && s.sessions[p] == fewer[a];
        let q = choose|q: int| 0 <= q < s.sessions.len() && s.sessions[q] == fewer[b];
        assert(fewer[a].key() != fewer[b].key());
        assert(s.sessions[p] == fewer[a] && s.sessions[q] == fewer[b]);
    }
}

/// Whether a session of the campaign `campaign` other than the one at
/// position `except` has the number `number`.
pub open spec fn number_taken(
    sessions: Seq<Session>,
    except: int,
    campaign: Seq<char>,
    number: i32,
) -> bool {
    exists|j: int|
        0 <= j < sessions.len() && j != except && (#[trigger] sessions[j]).campaign_id@ == campaign
            && sessions[j].session_number == number
}

/// Decides [`number_taken`]; `except` beyond the table excepts no session.
fn number_in_use(db: &Database, except: usize, campaign: &String, number: i32) -> (r: bool)
    ensures
        r == number_taken(db@.sessions, except as int, campaign@, number),
{
    let mut j: usize = 0;
    while j < db.sessions.len()
        invariant
            j <= db@.sessions.len(),
            forall|k: int|
                0 <= k < j && k != except ==> !((#[trigger] db@.sessions[k]).campaign_id@
                    == campaign@ && db@.sessions[k].session_number == number),
        decreases db@.sessions.len() - j,
    {
        let row = db.sessions.row(j);
        if j != except && row.campaign_id == *campaign && row.session_number == number {
            return true;
        }
        j += 1;
    }
    false
}

/// Stores `row`, unless the store refuses it.
pub fn insert_session(db: &mut Database, row: Session) -> (r: Result<(), AppError>)
    requires
        old(db).wf(),
    ensures
        final(db).wf(),
        match r {
            Ok(()) => {
                &&& session_refusal(old(db)@, row) is None
                &&& final(db)@ == with_session(old(db)@, row)
            },
            Err(e) => {
                &&& e is Database
                &&& Some(e.detail()) == session_refusal(old(db)@, row)
                &&& final(db)@ == old(db)@
            },
        },
{
    if db.sessions.contains(&row.id) {
        return Err(AppError::unique("sessions.id"));
    }
    if number_in_use(db, db.sessions.len(), &row.campaign_id, row.session_number) {
        return Err(AppError::unique("sessions.campaign_id, sessions.session_number"));
    }
    if !db.campaigns.contains(&row.campaign_id) {
        return Err(AppError::foreign_key());
    }
    let entry = row.project();
    proof {
        lemma_with_session_wf(db@, row);
    }
    db.sessions.insert(row);
    db.search_index.insert(entry);
    Ok(())
}

/// The session that the arguments of a creation describe, under the
/// identifier `id` and made at `now`: what is left out takes its default.
pub fn draft_session(
    id: String,
    now: Timestamp,
    campaign_id: String,
    session_number: i32,
    title: Option<String>,
    date: Option<String>,
) -> (row: Session)
    ensures
        row == Session::created(
            id,
            now,
            campaign_id,
            session_number,
            match date {
                        Some(d) => CalendarDate::parsed(d@),
                        None => None,
                    },
            title,
        ),
{
    let day = match date {
        Some(d) => CalendarDate::parse(d.as_str()),
        None => None,
    };
    Session::new(id, now, campaign_id, session_number, day, title)
}

/// Creates the session number `session_number` of the campaign `campaign_id`
/// under a fresh identifier, with the current time as the time of its making
/// and of its last change. A date that cannot be read as year, month and day
/// is left out.
pub fn create_session(
    db: &mut Database,
    campaign_id: String,
    session_number: i32,
    title: Option<String>,
    date: Option<String>,
) -> (r: Result<SessionResponse, AppError>)
    requires
        old(db).wf(),
    ensures
        final(db).wf(),
        match r {
            Ok(response) => {
                &&& find(final(db)@.sessions, response.id@) matches Some(row)
                &&& row == Session::created(
                    row.id,
                    row.created_at,
                    campaign_id,
                    session_number,
                    match date {
                        Some(d) => CalendarDate::parsed(d@),
                        None => None,
                    },
                    title,
                )
                &&& is_random_uuid_text(row.id@)
                &&& row.created_at.is_clock_time()
                &&& session_refusal(old(db)@, row) is None
                &&& response.represents(row)
                &&& final(db)@ == with_session(old(db)@, row)
            },
            Err(e) => {
                &&& final(db)@ == old(db)@
                &&& e is Database
                &&& exists|row: Session|
                    {
                        &&& #[trigger] session_refusal(old(db)@, row) == Some(e.detail())
                        &&& row == Session::created(
                            row.id,
                            row.created_at,
                            campaign_id,
                            session_number,
                            match date {
                                Some(d) => CalendarDate::parsed(d@),
                                None => None,
                            },
                            title,
                        )
                    }
            },
        },
{
    let id = new_id();
    let now = Timestamp::now();
    let row = draft_session(id, now, campaign_id, session_number, title, date);
    let response = SessionResponse::from(row.copy());
    let ghost made = row;
    proof {
        lemma_push_keys(db@.sessions, row);
    }
    match insert_session(db, row) {
        Ok(()) => Ok(response),
        Err(e) => {
            assert(session_refusal(old(db)@, made) == Some(e.detail()));
            Err(e)
        },
    }
}

/// The session `id`.
pub fn get_session(db: &Database, id: String) -> (r: Result<SessionResponse, AppError>)
    requires
        db.wf(),
    ensures
        match r {
            Ok(response) => find(db@.sessions, id@) matches Some(row) && response.represents(row),
            Err(e) => {
                &&& find(db@.sessions, id@) is None
                &&& e is NotFound
                &&& e.detail() == not_found_text("Session"@, id@)
            },
        },
{
    match db.sessions.get(&id) {
        Some(row) => Ok(SessionResponse::from(row)),
        None => Err(AppError::not_found("Session", id.as_str())),
    }
}

/// The sessions of the campaign `campaign_id`, by number.
pub fn list_sessions(
    db: &Database,
    campaign_id: String,
) -> (r: Result<Vec<SessionResponse>, AppError>)
    requires
        db.wf(),
    ensures
        r matches Ok(out) && SessionResponse::list(out@, owned_by(db@.sessions, campaign_id@)),
{
    let rows = sort_rows(db.sessions.owned(&campaign_id));
    Ok(SessionResponse::from_all(rows))
}

/// Applies `patch` to the session `id` at the time `now`.
pub fn change_session(
    db: &mut Database,
    id: &String,
    patch: SessionPatch,
    now: Timestamp,
) -> (r: Result<SessionResponse, AppError>)
    requires
        old(db).wf(),
    ensures
        final(db).wf(),
        match r {
            Ok(response) => {
                &&& find(old(db)@.sessions, id@) matches Some(before)
                &&& session_change_refusal(
                    old(db)@,
                    index_of(old(db)@.sessions, id@),
                    before.patched(patch, now),
                ) is None
                &&& find(final(db)@.sessions, id@) == Some(before.patched(patch, now))
                &&& response.represents(before.patched(patch, now))
                &&& final(db)@ == with_session_replaced(
                    old(db)@,
                    index_of(old(db)@.sessions, id@),
                    before.patched(patch, now),
                )
            },
            Err(e) => {
                &&& final(db)@ == old(db)@
                &&& match find(old(db)@.sessions, id@) {
                    None => e is NotFound && e.detail() == not_found_text(
                        "Session"@,
                        id@,
                    ),
                    Some(before) => e is Database && Some(e.detail()) == session_change_refusal(
                        old(db)@,
                        index_of(old(db)@.sessions, id@),
                        before.patched(patch, now),
                    ),
                }
            },
        },
{
    match db.sessions.position(id) {
        None => Err(AppError::not_found("Session", id.as_str())),
        Some(i) => {
            let before = db.sessions.row(i).copy();
            proof {
                lemma_find_at(db@.sessions, i as int);
                before.lemma_patch_keeps_identity(patch, now);
            }
            let row = before.apply(patch, now);
            if number_in_use(db, i, &row.campaign_id, row.session_number) {
                return Err(AppError::unique("sessions.campaign_id, sessions.session_number"));
            }
            let entry = row.project();
            let response = SessionResponse::from(row.copy());
            proof {
                lemma_update_keys(db@.sessions, i as int, row);
                lemma_with_session_replaced_wf(db@, i as int, row);
            }
            db.sessions.replace(i, row);
            db.search_index.remove(IndexedKind::Session, id);
            db.search_index.insert(entry);
            Ok(response)
        },
    }
}

/// Changes the session `id`: each argument that is given replaces the
/// stored value, what is left out stays, and the time of the last change
/// becomes the current time.
pub fn update_session(
    db: &mut Database,
    id: String,
    session_number: Option<i32>,
    title: Option<String>,
    date: Option<String>,
    planned_content: Option<String>,
    notes: Option<String>,
    summary: Option<String>,
    highlights: Option<String>,
) -> (r: Result<SessionResponse, AppError>)
    requires
        old(db).wf(),
    ensures
        final(db).wf(),
        ({
            let patch = SessionPatch {
                session_number,
                title,
                date,
                planned_content,
                notes,
                summary,
                highlights,
            };
            match find(old(db)@.sessions, id@) {
                None => {
                    &&& final(db)@ == old(db)@
                    &&& r matches Err(e) && e is NotFound && e.detail() == not_found_text(
                        "Session"@,
                        id@,
                    )
                },
                Some(before) => match session_change_refusal(
                    old(db)@,
                    index_of(old(db)@.sessions, id@),
                    before.patched(patch, before.updated_at),
                ) {
                    Some(reason) => {
                        &&& final(db)@ == old(db)@
                        &&& r matches Err(e) && e is Database && e.detail() == reason
                    },
                    None => {
                        &&& r matches Ok(response)
                        &&& find(final(db)@.sessions, id@) matches Some(after)
                        &&& after == before.patched(patch, after.updated_at)
                        &&& after.updated_at.is_clock_time()
                        &&& response.represents(after)
                        &&& final(db)@ == with_session_replaced(
                            old(db)@,
                            index_of(old(db)@.sessions, id@),
                            after,
                        )
                    },
                },
            }
        }),
{
    let patch = SessionPatch {
        session_number,
        title,
        date,
        planned_content,
        notes,
        summary,
        highlights,
    };
    let now = Timestamp::now();
    change_session(db, &id, patch, now)
}

/// Removes the session `id`; tells whether there was one.
pub fn delete_session(db: &mut Database, id: String) -> (r: Result<bool, AppError>)
    requires
        old(db).wf(),
    ensures
        final(db).wf(),
        r matches Ok(deleted) && deleted == has_key(old(db)@.sessions, id@),
        final(db)@ == without_session(old(db)@, id@),
{
    proof {
        lemma_without_session_wf(db@, id@);
    }
    let deleted = db.sessions.remove_key(&id);
    db.search_index.remove(IndexedKind::Session, &id);
    Ok(deleted)
}

} // verus!
