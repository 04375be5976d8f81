//! A directed link between two entities, each named by its kind and identifier.

use crate::clock::Timestamp;
use crate::table::Row;
use crate::text::copy_text;
use vstd::prelude::*;

verus! {

/// A directed link between two entities, each named by its kind and identifier.
#[derive(Debug)]
pub struct Relationship {
    pub id: String,
    pub campaign_id: String,
    pub source_type: String,
    pub source_id: String,
    pub target_type: String,
    pub target_id: String,
    pub relationship_type: String,
    pub description: Option<String>,
    pub is_bidirectional: bool,
    pub strength: Option<i32>,
    pub is_public: bool,
    pub created_at: Timestamp,
    pub updated_at: Timestamp,
}

/// The changes asked of a relationship: a field left out stays as it is.
#[derive(Debug)]
pub struct RelationshipPatch {
    pub relationship_type: Option<String>,
    pub description: Option<String>,
    pub is_bidirectional: Option<bool>,
    pub strength: Option<i32>,
    pub is_public: Option<bool>,
}

impl RelationshipPatch {
    /// Whether no change is asked.
    pub open spec fn is_empty(self) -> bool {
        self.relationship_type is None
            && self.description is None
            && self.is_bidirectional is None
            && self.strength is None
            && self.is_public is None
    }

    /// The patch that asks no change.
    pub fn none() -> (p: Self)
        ensures
            p.is_empty(),
    {
        RelationshipPatch {
            relationship_type: None,
            description: None,
            is_bidirectional: None,
            strength: None,
            is_public: None,
        }
    }
}

impl Relationship {
    /// The relationship as it is first stored: what the caller gave, and the
    /// defaults for the rest.
    pub open spec fn created(
        id: String,
        now: Timestamp,
        campaign_id: String,
        source_type: String,
        source_id: String,
        target_type: String,
        target_id: String,
        relationship_type: String,
        description: Option<String>,
        is_bidirectional: bool,
        strength: Option<i32>,
    ) -> Relationship {
        Relationship {
            id,
            campaign_id,
            source_type,
            source_id,
            target_type,
            target_id,
            relationship_type,
            description,
            is_bidirectional,
            strength,
            is_public: true,
            created_at: now,
            updated_at: now,
        }
    }

    /// Makes the relationship as it is first stored.
    pub fn new(
        id: String,
        now: Timestamp,
        campaign_id: String,
        source_type: String,
        source_id: String,
        target_type: String,
        target_id: String,
        relationship_type: String,
        description: Option<String>,
        is_bidirectional: bool,
        strength: Option<i32>,
    ) -> (row: Relationship)
        ensures
            row == Relationship::created(
                id,
                now,
                campaign_id,
                source_type,
                source_id,
                target_type,
                target_id,
                relationship_type,
                description,
                is_bidirectional,
                strength,
            ),
    {
        Relationship {
            id,
            campaign_id,
            source_type,
            source_id,
            target_type,
            target_id,
            relationship_type,
            description,
            is_bidirectional,
            strength,
            is_public: true,
            created_at: now,
            updated_at: now,
        }
    }

    /// The relationship after the changes of `patch`, made at `now`: each field
    /// that the patch names takes the new value, every other field but the
    /// time of the last change stays.
    pub open spec fn patched(self, patch: RelationshipPatch, now: Timestamp) -> Relationship {
        Relationship {
            id: self.id,
            campaign_id: self.campaign_id,
            source_type: self.source_type,
            source_id: self.source_id,
            target_type: self.target_type,
            target_id: self.target_id,
            relationship_type: match patch.relationship_type {
                Some(v) => v,
                None => self.relationship_type,
            },
            description: match patch.description {
                Some(v) => Some(v),
                None => self.description,
            },
            is_bidirectional: match patch.is_bidirectional {
                Some(v) => v,
                None => self.is_bidirectional,
            },
            strength: match patch.strength {
                Some(v) => Some(v),
                None => self.strength,
            },
            is_public: match patch.is_public {
                Some(v) => v,
                None => self.is_public,
            },
            created_at: self.created_at,
            updated_at: now,
        }
    }

    /// Applies the changes of `patch`, made at `now`.
    pub fn apply(self, patch: RelationshipPatch, now: Timestamp) -> (row: Relationship)
        ensures
            row == self.patched(patch, now),
    {
        Relationship {
            id: self.id,
            campaign_id: self.campaign_id,
            source_type: self.source_type,
            source_id: self.source_id,
            target_type: self.target_type,
            target_id: self.target_id,
            relationship_type: match patch.relationship_type {
                Some(v) => v,
                None => self.relationship_type,
            },
            description: match patch.description {
                Some(v) => Some(v),
                None => self.description,
            },
            is_bidirectional: match patch.is_bidirectional {
                Some(v) => v,
                None => self.is_bidirectional,
            },
            strength: match patch.strength {
                Some(v) => Some(v),
                None => self.strength,
            },
            is_public: match patch.is_public {
                Some(v) => v,
                None => self.is_public,
            },
            created_at: self.created_at,
            updated_at: now,
        }
    }

    /// A patch that asks no change leaves every field as it is, but for
    /// the time of the last change.
    pub proof fn lemma_empty_patch_keeps_fields(self, patch: RelationshipPatch, now: Timestamp)
        requires
            patch.is_empty(),
        ensures
            self.patched(patch, now) == (Relationship { updated_at: now, ..self }),
    {
    }

    /// Whatever the patch asks, the identity of the row, the row that owns
    /// it and the time it was made stay.
    pub proof fn lemma_patch_keeps_identity(self, patch: RelationshipPatch, now: Timestamp)
        ensures
            self.patched(patch, now).id == self.id,
            self.patched(patch, now).campaign_id == self.campaign_id,
            self.patched(patch, now).created_at == self.created_at,
            self.patched(patch, now).updated_at == now,
    {
    }
}

impl Row for Relationship {
    open spec fn key(&self) -> Seq<char> {
        self.id@
    }

    open spec fn owner(&self) -> Seq<char> {
        self.campaign_id@
    }

    open spec fn before(&self, other: &Self) -> bool {
        other.created_at.le(self.created_at)
    }

    fn id(&self) -> (r: &String) {
        &self.id
    }

    fn owner_id(&self) -> (r: &String) {
        &self.campaign_id
    }

    fn comes_before(&self, other: &Self) -> (r: bool) {
        other.created_at.precedes(&self.created_at)
    }

    fn copy(&self) -> (r: Self) {
        Relationship {
            id: self.id.clone(),
            campaign_id: self.campaign_id.clone(),
            source_type: self.source_type.clone(),
            source_id: self.source_id.clone(),
            target_type: self.target_type.clone(),
            target_id: self.target_id.clone(),
            relationship_type: self.relationship_type.clone(),
            description: copy_text(&self.description),
            is_bidirectional: self.is_bidirectional,
            strength: self.strength,
            is_public: self.is_public,
            created_at: self.created_at,
            updated_at: self.updated_at,
        }
    }

    proof fn lemma_before_total(a: &Self, b: &Self) {
    }

    proof fn lemma_before_transitive(a: &Self, b: &Self, c: &Self) {
    }
}

} // verus!
