//! Something that is hidden from the players until it is revealed.

use crate::clock::Timestamp;
use crate::table::Row;
use crate::text::copy_text;
use vstd::prelude::*;

verus! {

/// Something that is hidden from the players until it is revealed.
#[derive(Debug)]
pub struct Secret {
    pub id: String,
    pub campaign_id: String,
    pub title: String,
    pub content: String,
    pub related_entity_type: Option<String>,
    pub related_entity_id: Option<String>,
    pub known_by: Option<String>,
    pub revealed: bool,
    pub revealed_in_session: Option<i32>,
    pub created_at: Timestamp,
    pub updated_at: Timestamp,
}

/// The changes asked of a secret: a field left out stays as it is.
#[derive(Debug)]
pub struct SecretPatch {
    pub title: Option<String>,
    pub content: Option<String>,
    pub related_entity_type: Option<String>,
    pub related_entity_id: Option<String>,
    pub known_by: Option<String>,
    pub revealed: Option<bool>,
    pub revealed_in_session: Option<i32>,
}

impl SecretPatch {
    /// Whether no change is asked.
    pub open spec fn is_empty(self) -> bool {
        self.title is None
            && self.content is None
            && self.related_entity_type is None
            && self.related_entity_id is None
            && self.known_by is None
            && self.revealed is None
            && self.revealed_in_session is None
    }

    /// The patch that asks no change.
    pub fn none() -> (p: Self)
        ensures
            p.is_empty(),
    {
        SecretPatch {
            title: None,
            content: None,
            related_entity_type: None,
            related_entity_id: None,
            known_by: None,
            revealed: None,
            revealed_in_session: None,
        }
    }
}

impl Secret {
    /// The secret as it is first stored: what the caller gave, and the
    /// defaults for the rest.
    pub open spec fn created(
        id: String,
        now: Timestamp,
        campaign_id: String,
        title: String,
        content: String,
        related_entity_type: Option<String>,
        related_entity_id: Option<String>,
    ) -> Secret {
        Secret {
            id,
            campaign_id,
            title,
            content,
            related_entity_type,
            related_entity_id,
            known_by: None,
            revealed: false,
            revealed_in_session: None,
            created_at: now,
            updated_at: now,
        }
    }

    /// Makes the secret as it is first stored.
    pub fn new(
        id: String,
        now: Timestamp,
        campaign_id: String,
        title: String,
        content: String,
        related_entity_type: Option<String>,
        related_entity_id: Option<String>,
    ) -> (row: Secret)
        ensures
            row == Secret::created(
                id,
                now,
                campaign_id,
                title,
                content,
                related_entity_type,
                related_entity_id,
            ),
    {
        Secret {
            id,
            campaign_id,
            title,
            content,
            related_entity_type,
            related_entity_id,
            known_by: None,
            revealed: false,
            revealed_in_session: None,
            created_at: now,
            updated_at: now,
        }
    }

    /// The secret after the changes of `patch`, made at `now`: each field
    /// that the patch names takes the new value, every other field but the
    /// time of the last change stays.
    pub open spec fn patched(self, patch: SecretPatch, now: Timestamp) -> Secret {
        Secret {
            id: self.id,
            campaign_id: self.campaign_id,
            title: match patch.title {
                Some(v) => v,
                None => self.title,
            },
            content: match patch.content {
                Some(v) => v,
                None => self.content,
            },
            related_entity_type: match patch.related_entity_type {
                Some(v) => Some(v),
                None => self.related_entity_type,
            },
            related_entity_id: match patch.related_entity_id {
                Some(v) => Some(v),
                None => self.related_entity_id,
            },
            known_by: match patch.known_by {
                Some(v) => Some(v),
                None => self.known_by,
            },
            revealed: match patch.revealed {
                Some(v) => v,
                None => self.revealed,
            },
            revealed_in_session: match patch.revealed_in_session {
                Some(v) => Some(v),
                None => self.revealed_in_session,
            },
            created_at: self.created_at,
            updated_at: now,
        }
    }

    /// Applies the changes of `patch`, made at `now`.
    pub fn apply(self, patch: SecretPatch, now: Timestamp) -> (row: Secret)
        ensures
            row == self.patched(patch, now),
    {
        Secret {
            id: self.id,
            campaign_id: self.campaign_id,
            title: match patch.title {
                Some(v) => v,
                None => self.title,
            },
            content: match patch.content {
                Some(v) => v,
                None => self.content,
            },
            related_entity_type: match patch.related_entity_type {
                Some(v) => Some(v),
                None => self.related_entity_type,
            },
            related_entity_id: match patch.related_entity_id {
                Some(v) => Some(v),
                None => self.related_entity_id,
            },
            known_by: match patch.known_by {
                Some(v) => Some(v),
                None => self.known_by,
            },
            revealed: match patch.revealed {
                Some(v) => v,
                None => self.revealed,
            },
            revealed_in_session: match patch.revealed_in_session {
                Some(v) => Some(v),
                None => self.revealed_in_session,
            },
            created_at: self.created_at,
            updated_at: now,
        }
    }

    /// A patch that asks no change leaves every field as it is, but for
    /// the time of the last change.
    pub proof fn lemma_empty_patch_keeps_fields(self, patch: SecretPatch, now: Timestamp)
        requires
            patch.is_empty(),
        ensures
            self.patched(patch, now) == (Secret { updated_at: now, ..self }),
    {
    }

    /// Whatever the patch asks, the identity of the row, the row that owns
    /// it and the time it was made stay.
    pub proof fn lemma_patch_keeps_identity(self, patch: SecretPatch, now: Timestamp)
        ensures
            self.patched(patch, now).id == self.id,
            self.patched(patch, now).campaign_id == self.campaign_id,
            self.patched(patch, now).created_at == self.created_at,
            self.patched(patch, now).updated_at == now,
    {
    }
}

impl Row for Secret {
    open spec fn key(&self) -> Seq<char> {
        self.id@
    }

    open spec fn owner(&self) -> Seq<char> {
        self.campaign_id@
    }

    open spec fn before(&self, other: &Self) -> bool {
        other.created_at.le(self.created_at)
    }

    fn id(&self) -> (r: &String) {
        &self.id
    }

    fn owner_id(&self) -> (r: &String) {
        &self.campaign_id
    }

    fn comes_before(&self, other: &Self) -> (r: bool) {
        other.created_at.precedes(&self.created_at)
    }

    fn copy(&self) -> (r: Self) {
        Secret {
            id: self.id.clone(),
            campaign_id: self.campaign_id.clone(),
            title: self.title.clone(),
            content: self.content.clone(),
            related_entity_type: copy_text(&self.related_entity_type),
            related_entity_id: copy_text(&self.related_entity_id),
            known_by: copy_text(&self.known_by),
            revealed: self.revealed,
            revealed_in_session: self.revealed_in_session,
            created_at: self.created_at,
            updated_at: self.updated_at,
        }
    }

    proof fn lemma_before_total(a: &Self, b: &Self) {
    }

    proof fn lemma_before_transitive(a: &Self, b: &Self, c: &Self) {
    }
}

} // verus!
