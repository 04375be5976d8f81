//! A player at the table.

use crate::clock::Timestamp;
use crate::table::Row;
use crate::text::{copy_text, lemma_text_le_total, lemma_text_le_transitive, text_le, text_precedes};
use vstd::prelude::*;

verus! {

/// A player at the table.
#[derive(Debug)]
pub struct Player {
    pub id: String,
    pub campaign_id: String,
    pub name: String,
    pub preferences: Option<String>,
    pub boundaries: Option<String>,
    pub notes: Option<String>,
    pub created_at: Timestamp,
    pub updated_at: Timestamp,
}

/// The changes asked of a player: a field left out stays as it is.
#[derive(Debug)]
pub struct PlayerPatch {
    pub name: Option<String>,
    pub preferences: Option<String>,
    pub boundaries: Option<String>,
    pub notes: Option<String>,
}

impl PlayerPatch {
    /// Whether no change is asked.
    pub open spec fn is_empty(self) -> bool {
        self.name is None
            && self.preferences is None
            && self.boundaries is None
            && self.notes is None
    }

    /// The patch that asks no change.
    pub fn none() -> (p: Self)
        ensures
            p.is_empty(),
    {
        PlayerPatch {
            name: None,
            preferences: None,
            boundaries: None,
            notes: None,
        }
    }
}

impl Player {
    /// The player as it is first stored: what the caller gave, and the
    /// defaults for the rest.
    pub open spec fn created(
        id: String,
        now: Timestamp,
        campaign_id: String,
        name: String,
        preferences: Option<String>,
        boundaries: Option<String>,
    ) -> Player {
        Player {
            id,
            campaign_id,
            name,
            preferences,
            boundaries,
            notes: None,
            created_at: now,
            updated_at: now,
        }
    }

    /// Makes the player as it is first stored.
    pub fn new(
        id: String,
        now: Timestamp,
        campaign_id: String,
        name: String,
        preferences: Option<String>,
        boundaries: Option<String>,
    ) -> (row: Player)
        ensures
            row == Player::created(id, now, campaign_id, name, preferences, boundaries),
    {
        Player {
            id,
            campaign_id,
            name,
            preferences,
            boundaries,
            notes: None,
            created_at: now,
            updated_at: now,
        }
    }

    /// The player after the changes of `patch`, made at `now`: each field
    /// that the patch names takes the new value, every other field but the
    /// time of the last change stays.
    pub open spec fn patched(self, patch: PlayerPatch, now: Timestamp) -> Player {
        Player {
            id: self.id,
            campaign_id: self.campaign_id,
            name: match patch.name {
                Some(v) => v,
                None => self.name,
            },
            preferences: match patch.preferences {
                Some(v) => Some(v),
                None => self.preferences,
            },
            boundaries: match patch.boundaries {
                Some(v) => Some(v),
                None => self.boundaries,
            },
            notes: match patch.notes {
                Some(v) => Some(v),
                None => self.notes,
            },
            created_at: self.created_at,
            updated_at: now,
        }
    }

    /// Applies the changes of `patch`, made at `now`.
    pub fn apply(self, patch: PlayerPatch, now: Timestamp) -> (row: Player)
        ensures
            row == self.patched(patch, now),
    {
        Player {
            id: self.id,
            campaign_id: self.campaign_id,
            name: match patch.name {
                Some(v) => v,
                None => self.name,
            },
            preferences: match patch.preferences {
                Some(v) => Some(v),
                None => self.preferences,
            },
            boundaries: match patch.boundaries {
                Some(v) => Some(v),
                None => self.boundaries,
            },
            notes: match patch.notes {
                Some(v) => Some(v),
                None => self.notes,
            },
            created_at: self.created_at,
            updated_at: now,
        }
    }

    /// A patch that asks no change leaves every field as it is, but for
    /// the time of the last change.
    pub proof fn lemma_empty_patch_keeps_fields(self, patch: PlayerPatch, now: Timestamp)
        requires
            patch.is_empty(),
        ensures
            self.patched(patch, now) == (Player { updated_at: now, ..self }),
    {
    }

    /// Whatever the patch asks, the identity of the row, the row that owns
    /// it and the time it was made stay.
    pub proof fn lemma_patch_keeps_identity(self, patch: PlayerPatch, now: Timestamp)
        ensures
            self.patched(patch, now).id == self.id,
            self.patched(patch, now).campaign_id == self.campaign_id,
            self.patched(patch, now).created_at == self.created_at,
            self.patched(patch, now).updated_at == now,
    {
    }
}

impl Row for Player {
    open spec fn key(&self) -> Seq<char> {
        self.id@
    }

    open spec fn owner(&self) -> Seq<char> {
        self.campaign_id@
    }

    open spec fn before(&self, other: &Self) -> bool {
        text_le(self.name@, other.name@)
    }

    fn id(&self) -> (r: &String) {
        &self.id
    }

    fn owner_id(&self) -> (r: &String) {
        &self.campaign_id
    }

    fn comes_before(&self, other: &Self) -> (r: bool) {
        text_precedes(self.name.as_str(), other.name.as_str())
    }

    fn copy(&self) -> (r: Self) {
        Player {
            id: self.id.clone(),
            campaign_id: self.campaign_id.clone(),
            name: self.name.clone(),
            preferences: copy_text(&self.preferences),
            boundaries: copy_text(&self.boundaries),
            notes: copy_text(&self.notes),
            created_at: self.created_at,
            updated_at: self.updated_at,
        }
    }

    proof fn lemma_before_total(a: &Self, b: &Self) {
        lemma_text_le_total(a.name@, b.name@);
    }

    proof fn lemma_before_transitive(a: &Self, b: &Self, c: &Self) {
        lemma_text_le_transitive(a.name@, b.name@, c.name@);
    }
}

} // verus!
