//! An event in the history of the world.

use crate::clock::Timestamp;
use crate::table::Row;
use crate::text::copy_text;
use vstd::prelude::*;

verus! {

/// An event in the history of the world.
#[derive(Debug)]
pub struct TimelineEvent {
    pub id: String,
    pub campaign_id: String,
    pub date_display: String,
    pub sort_order: i64,
    pub title: String,
    pub description: Option<String>,
    pub significance: String,
    pub is_public: bool,
    pub created_at: Timestamp,
    pub updated_at: Timestamp,
}

/// The changes asked of a timeline event: a field left out stays as it is.
#[derive(Debug)]
pub struct TimelineEventPatch {
    pub title: Option<String>,
    pub date_display: Option<String>,
    pub sort_order: Option<i64>,
    pub description: Option<String>,
    pub significance: Option<String>,
    pub is_public: Option<bool>,
}

impl TimelineEventPatch {
    /// Whether no change is asked.
    pub open spec fn is_empty(self) -> bool {
        self.title is None
            && self.date_display is None
            && self.sort_order is None
            && self.description is None
            && self.significance is None
            && self.is_public is None
    }

    /// The patch that asks no change.
    pub fn none() -> (p: Self)
        ensures
            p.is_empty(),
    {
        TimelineEventPatch {
            title: None,
            date_display: None,
            sort_order: None,
            description: None,
            significance: None,
            is_public: None,
        }
    }
}

impl TimelineEvent {
    /// The timeline event as it is first stored: what the caller gave, and the
    /// defaults for the rest.
    pub open spec fn created(
        id: String,
        now: Timestamp,
        campaign_id: String,
        date_display: String,
        sort_order: i64,
        title: String,
        description: Option<String>,
        significance: String,
    ) -> TimelineEvent {
        TimelineEvent {
            id,
            campaign_id,
            date_display,
            sort_order,
            title,
            description,
            significance,
            is_public: true,
            created_at: now,
            updated_at: now,
        }
    }

    /// Makes the timeline event as it is first stored.
    pub fn new(
        id: String,
        now: Timestamp,
        campaign_id: String,
        date_display: String,
        sort_order: i64,
        title: String,
        description: Option<String>,
        significance: String,
    ) -> (row: TimelineEvent)
        ensures
            row == TimelineEvent::created(
                id,
                now,
                campaign_id,
                date_display,
                sort_order,
                title,
                description,
                significance,
            ),
    {
        TimelineEvent {
            id,
            campaign_id,
            date_display,
            sort_order,
            title,
            description,
            significance,
            is_public: true,
            created_at: now,
            updated_at: now,
        }
    }

    /// The timeline event after the changes of `patch`, made at `now`: each field
    /// that the patch names takes the new value, every other field but the
    /// time of the last change stays.
    pub open spec fn patched(self, patch: TimelineEventPatch, now: Timestamp) -> TimelineEvent {
        TimelineEvent {
            id: self.id,
            campaign_id: self.campaign_id,
            date_display: match patch.date_display {
                Some(v) => v,
                None => self.date_display,
            },
            sort_order: match patch.sort_order {
                Some(v) => v,
                None => self.sort_order,
            },
            title: match patch.title {
                Some(v) => v,
                None => self.title,
            },
            description: match patch.description {
                Some(v) => Some(v),
                None => self.description,
            },
            significance: match patch.significance {
                Some(v) => v,
                None => self.significance,
            },
            is_public: match patch.is_public {
                Some(v) => v,
                None => self.is_public,
            },
            created_at: self.created_at,
            updated_at: now,
        }
    }

    /// Applies the changes of `patch`, made at `now`.
    pub fn apply(self, patch: TimelineEventPatch, now: Timestamp) -> (row: TimelineEvent)
        ensures
            row == self.patched(patch, now),
    {
        TimelineEvent {
            id: self.id,
            campaign_id: self.campaign_id,
            date_display: match patch.date_display {
                Some(v) => v,
                None => self.date_display,
            },
            sort_order: match patch.sort_order {
                Some(v) => v,
                None => self.sort_order,
            },
            title: match patch.title {
                Some(v) => v,
                None => self.title,
            },
            description: match patch.description {
                Some(v) => Some(v),
                None => self.description,
            },
            significance: match patch.significance {
                Some(v) => v,
                None => self.significance,
            },
            is_public: match patch.is_public {
                Some(v) => v,
                None => self.is_public,
            },
            created_at: self.created_at,
            updated_at: now,
        }
    }

    /// A patch that asks no change leaves every field as it is, but for
    /// the time of the last change.
    pub proof fn lemma_empty_patch_keeps_fields(self, patch: TimelineEventPatch, now: Timestamp)
        requires
            patch.is_empty(),
        ensures
            self.patched(patch, now) == (TimelineEvent { updated_at: now, ..self }),
    {
    }

    /// Whatever the patch asks, the identity of the row, the row that owns
    /// it and the time it was made stay.
    pub proof fn lemma_patch_keeps_identity(self, patch: TimelineEventPatch, now: Timestamp)
        ensures
            self.patched(patch, now).id == self.id,
            self.patched(patch, now).campaign_id == self.campaign_id,
            self.patched(patch, now).created_at == self.created_at,
            self.patched(patch, now).updated_at == now,
    {
    }
}

impl Row for TimelineEvent {
    open spec fn key(&self) -> Seq<char> {
        self.id@
    }

    open spec fn owner(&self) -> Seq<char> {
        self.campaign_id@
    }

    open spec fn before(&self, other: &Self) -> bool {
        self.sort_order <= other.sort_order
    }

    fn id(&self) -> (r: &String) {
        &self.id
    }

    fn owner_id(&self) -> (r: &String) {
        &self.campaign_id
    }

    fn comes_before(&self, other: &Self) -> (r: bool) {
        self.sort_order <= other.sort_order
    }

    fn copy(&self) -> (r: Self) {
        TimelineEvent {
            id: self.id.clone(),
            campaign_id: self.campaign_id.clone(),
            date_display: self.date_display.clone(),
            sort_order: self.sort_order,
            title: self.title.clone(),
            description: copy_text(&self.description),
            significance: self.significance.clone(),
            is_public: self.is_public,
            created_at: self.created_at,
            updated_at: self.updated_at,
        }
    }

    proof fn lemma_before_total(a: &Self, b: &Self) {
    }

    proof fn lemma_before_transitive(a: &Self, b: &Self, c: &Self) {
    }
}

} // verus!
