//! A campaign: the root that every other row belongs to.

use crate::clock::Timestamp;
use crate::table::Row;
use crate::text::copy_text;
use vstd::prelude::*;

verus! {

/// A campaign: the root that every other row belongs to.
#[derive(Debug)]
pub struct Campaign {
    pub id: String,
    pub name: String,
    pub description: Option<String>,
    pub system: Option<String>,
    pub settings_json: Option<String>,
    pub created_at: Timestamp,
    pub updated_at: Timestamp,
}

/// The changes asked of a campaign: a field left out stays as it is.
#[derive(Debug)]
pub struct CampaignPatch {
    pub name: Option<String>,
    pub description: Option<String>,
    pub system: Option<String>,
    pub settings_json: Option<String>,
}

impl CampaignPatch {
    /// Whether no change is asked.
    pub open spec fn is_empty(self) -> bool {
        self.name is None
            && self.description is None
            && self.system is None
            && self.settings_json is None
    }

    /// The patch that asks no change.
    pub fn none() -> (p: Self)
        ensures
            p.is_empty(),
    {
        CampaignPatch {
            name: None,
            description: None,
            system: None,
            settings_json: None,
        }
    }
}

impl Campaign {
    /// The campaign as it is first stored: what the caller gave, and the
    /// defaults for the rest.
    pub open spec fn created(
        id: String,
        now: Timestamp,
        name: String,
        description: Option<String>,
        system: Option<String>,
    ) -> Campaign {
        Campaign {
            id,
            name,
            description,
            system,
            settings_json: None,
            created_at: now,
            updated_at: now,
        }
    }

    /// Makes the campaign as it is first stored.
    pub fn new(
        id: String,
        now: Timestamp,
        name: String,
        description: Option<String>,
        system: Option<String>,
    ) -> (row: Campaign)
        ensures
            row == Campaign::created(id, now, name, description, system),
    {
        Campaign {
            id,
            name,
            description,
            system,
            settings_json: None,
            created_at: now,
            updated_at: now,
        }
    }

    /// The campaign after the changes of `patch`, made at `now`: each field
    /// that the patch names takes the new value, every other field but the
    /// time of the last change stays.
    pub open spec fn patched(self, patch: CampaignPatch, now: Timestamp) -> Campaign {
        Campaign {
            id: self.id,
            name: match patch.name {
                Some(v) => v,
                None => self.name,
            },
            description: match patch.description {
                Some(v) => Some(v),
                None => self.description,
            },
            system: match patch.system {
                Some(v) => Some(v),
                None => self.system,
            },
            settings_json: match patch.settings_json {
                Some(v) => Some(v),
                None => self.settings_json,
            },
            created_at: self.created_at,
            updated_at: now,
        }
    }

    /// Applies the changes of `patch`, made at `now`.
    pub fn apply(self, patch: CampaignPatch, now: Timestamp) -> (row: Campaign)
        ensures
            row == self.patched(patch, now),
    {
        Campaign {
            id: self.id,
            name: match patch.name {
                Some(v) => v,
                None => self.name,
            },
            description: match patch.description {
                Some(v) => Some(v),
                None => self.description,
            },
            system: match patch.system {
                Some(v) => Some(v),
                None => self.system,
            },
            settings_json: match patch.settings_json {
                Some(v) => Some(v),
                None => self.settings_json,
            },
            created_at: self.created_at,
            updated_at: now,
        }
    }

    /// A patch that asks no change leaves every field as it is, but for
    /// the time of the last change.
    pub proof fn lemma_empty_patch_keeps_fields(self, patch: CampaignPatch, now: Timestamp)
        requires
            patch.is_empty(),
        ensures
            self.patched(patch, now) == (Campaign { updated_at: now, ..self }),
    {
    }

    /// Whatever the patch asks, the identity of the row, the row that owns
    /// it and the time it was made stay.
    pub proof fn lemma_patch_keeps_identity(self, patch: CampaignPatch, now: Timestamp)
        ensures
            self.patched(patch, now).id == self.id,
            self.patched(patch, now).created_at == self.created_at,
            self.patched(patch, now).updated_at == now,
    {
    }
}

impl Row for Campaign {
    open spec fn key(&self) -> Seq<char> {
        self.id@
    }

    open spec fn owner(&self) -> Seq<char> {
        self.id@
    }

    open spec fn before(&self, other: &Self) -> bool {
        other.updated_at.le(self.updated_at)
    }

    fn id(&self) -> (r: &String) {
        &self.id
    }

    fn owner_id(&self) -> (r: &String) {
        &self.id
    }

    fn comes_before(&self, other: &Self) -> (r: bool) {
        other.updated_at.precedes(&self.updated_at)
    }

    fn copy(&self) -> (r: Self) {
        Campaign {
            id: self.id.clone(),
            name: self.name.clone(),
            description: copy_text(&self.description),
            system: copy_text(&self.system),
            settings_json: copy_text(&self.settings_json),
            created_at: self.created_at,
            updated_at: self.updated_at,
        }
    }

    proof fn lemma_before_total(a: &Self, b: &Self) {
    }

    proof fn lemma_before_transitive(a: &Self, b: &Self, c: &Self) {
    }
}

} // verus!
