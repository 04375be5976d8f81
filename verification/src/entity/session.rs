//! One sitting of the game.

use crate::clock::{CalendarDate, Timestamp};
use crate::search_index::{IndexEntry, IndexedKind, Indexed};
use crate::table::Row;
use crate::text::{copy_text, decimal, decimal_text, text_or_empty};
use vstd::prelude::*;
use vstd::string::*;

verus! {

/// One sitting of the game.
#[derive(Debug)]
pub struct Session {
    pub id: String,
    pub campaign_id: String,
    pub session_number: i32,
    pub date: Option<CalendarDate>,
    pub title: Option<String>,
    pub planned_content: Option<String>,
    pub notes: Option<String>,
    pub summary: Option<String>,
    pub highlights: Option<String>,
    pub created_at: Timestamp,
    pub updated_at: Timestamp,
}

/// The changes asked of a session: a field left out stays as it is.
#[derive(Debug)]
pub struct SessionPatch {
    pub session_number: Option<i32>,
    pub title: Option<String>,
    pub date: Option<String>,
    pub planned_content: Option<String>,
    pub notes: Option<String>,
    pub summary: Option<String>,
    pub highlights: Option<String>,
}

impl SessionPatch {
    /// Whether no change is asked.
    pub open spec fn is_empty(self) -> bool {
        self.session_number is None
            && self.title is None
            && self.date is None
            && self.planned_content is None
            && self.notes is None
            && self.summary is None
            && self.highlights is None
    }

    /// The patch that asks no change.
    pub fn none() -> (p: Self)
        ensures
            p.is_empty(),
    {
        SessionPatch {
            session_number: None,
            title: None,
            date: None,
            planned_content: None,
            notes: None,
            summary: None,
            highlights: None,
        }
    }
}

impl Session {
    /// The session as it is first stored: what the caller gave, and the
    /// defaults for the rest.
    pub open spec fn created(
        id: String,
        now: Timestamp,
        campaign_id: String,
        session_number: i32,
        date: Option<CalendarDate>,
        title: Option<String>,
    ) -> Session {
        Session {
            id,
            campaign_id,
            session_number,
            date,
            title,
            planned_content: None,
            notes: None,
            summary: None,
            highlights: None,
            created_at: now,
            updated_at: now,
        }
    }

    /// Makes the session as it is first stored.
    pub fn new(
        id: String,
        now: Timestamp,
        campaign_id: String,
        session_number: i32,
        date: Option<CalendarDate>,
        title: Option<String>,
    ) -> (row: Session)
        ensures
            row == Session::created(id, now, campaign_id, session_number, date, title),
    {
        Session {
            id,
            campaign_id,
            session_number,
            date,
            title,
            planned_content: None,
            notes: None,
            summary: None,
            highlights: None,
            created_at: now,
            updated_at: now,
        }
    }

    /// The session after the changes of `patch`, made at `now`: each field
    /// that the patch names takes the new value, every other field but the
    /// time of the last change stays.
    pub open spec fn patched(self, patch: SessionPatch, now: Timestamp) -> Session {
        Session {
            id: self.id,
            campaign_id: self.campaign_id,
            session_number: match patch.session_number {
                Some(v) => v,
                None => self.session_number,
            },
            date: match patch.date {
                Some(v) => CalendarDate::parsed(v@),
                None => self.date,
            },
            title: match patch.title {
                Some(v) => Some(v),
                None => self.title,
            },
            planned_content: match patch.planned_content {
                Some(v) => Some(v),
                None => self.planned_content,
            },
            notes: match patch.notes {
                Some(v) => Some(v),
                None => self.notes,
            },
            summary: match patch.summary {
                Some(v) => Some(v),
                None => self.summary,
            },
            highlights: match patch.highlights {
                Some(v) => Some(v),
                None => self.highlights,
            },
            created_at: self.created_at,
            updated_at: now,
        }
    }

    /// Applies the changes of `patch`, made at `now`.
    pub fn apply(self, patch: SessionPatch, now: Timestamp) -> (row: Session)
        ensures
            row == self.patched(patch, now),
    {
        Session {
            id: self.id,
            campaign_id: self.campaign_id,
            session_number: match patch.session_number {
                Some(v) => v,
                None => self.session_number,
            },
            date: match patch.date {
                Some(v) => CalendarDate::parse(v.as_str()),
                None => self.date,
            },
            title: match patch.title {
                Some(v) => Some(v),
                None => self.title,
            },
            planned_content: match patch.planned_content {
                Some(v) => Some(v),
                None => self.planned_content,
            },
            notes: match patch.notes {
                Some(v) => Some(v),
                None => self.notes,
            },
            summary: match patch.summary {
                Some(v) => Some(v),
                None => self.summary,
            },
            highlights: match patch.highlights {
                Some(v) => Some(v),
                None => self.highlights,
            },
            created_at: self.created_at,
            updated_at: now,
        }
    }

    /// A patch that asks no change leaves every field as it is, but for
    /// the time of the last change.
    pub proof fn lemma_empty_patch_keeps_fields(self, patch: SessionPatch, now: Timestamp)
        requires
            patch.is_empty(),
        ensures
            self.patched(patch, now) == (Session { updated_at: now, ..self }),
    {
    }

    /// Whatever the patch asks, the identity of the row, the row that owns
    /// it and the time it was made stay.
    pub proof fn lemma_patch_keeps_identity(self, patch: SessionPatch, now: Timestamp)
        ensures
            self.patched(patch, now).id == self.id,
            self.patched(patch, now).campaign_id == self.campaign_id,
            self.patched(patch, now).created_at == self.created_at,
            self.patched(patch, now).updated_at == now,
    {
    }
}

impl Row for Session {
    open spec fn key(&self) -> Seq<char> {
        self.id@
    }

    open spec fn owner(&self) -> Seq<char> {
        self.campaign_id@
    }

    open spec fn before(&self, other: &Self) -> bool {
        self.session_number <= other.session_number
    }

    fn id(&self) -> (r: &String) {
        &self.id
    }

    fn owner_id(&self) -> (r: &String) {
        &self.campaign_id
    }

    fn comes_before(&self, other: &Self) -> (r: bool) {
        self.session_number <= other.session_number
    }

    fn copy(&self) -> (r: Self) {
        Session {
            id: self.id.clone(),
            campaign_id: self.campaign_id.clone(),
            session_number: self.session_number,
            date: self.date,
            title: copy_text(&self.title),
            planned_content: copy_text(&self.planned_content),
            notes: copy_text(&self.notes),
            summary: copy_text(&self.summary),
            highlights: copy_text(&self.highlights),
            created_at: self.created_at,
            updated_at: self.updated_at,
        }
    }

    proof fn lemma_before_total(a: &Self, b: &Self) {
    }

    proof fn lemma_before_transitive(a: &Self, b: &Self, c: &Self) {
    }
}

impl Indexed for Session {
    open spec fn kind() -> IndexedKind {
        IndexedKind::Session
    }

    open spec fn index_name(&self) -> Seq<char> {
        match self.title {
            Some(t) => t@,
            None => "Session "@ + decimal(self.session_number as int),
        }
    }

    open spec fn index_content(&self) -> Seq<char> {
        text_or_empty(self.notes) + " "@ + text_or_empty(self.summary)
    }

    fn project(&self) -> (e: IndexEntry) {
        let name = match &self.title {
            Some(t) => t.clone(),
            None => String::from_str("Session ").concat(
                decimal_text(self.session_number as i64).as_str(),
            ),
        };
        let mut content = String::new();
        match &self.notes {
            Some(t) => content.append(t.as_str()),
            None => {},
        }
        content.append(" ");
        match &self.summary {
            Some(t) => content.append(t.as_str()),
            None => {},
        }
        IndexEntry {
            kind: IndexedKind::Session,
            entity_id: self.id.clone(),
            campaign_id: self.campaign_id.clone(),
            name,
            content,
        }
    }
}

} // verus!
