//! A place of the world, which may lie within another place.

use crate::clock::Timestamp;
use crate::search_index::{IndexEntry, IndexedKind, Indexed};
use crate::table::Row;
use crate::text::{
    copy_text, lemma_text_le_total, lemma_text_le_transitive, text_le, text_or_empty, text_precedes,
};
use vstd::prelude::*;
use vstd::string::*;

verus! {

/// A place of the world, which may lie within another place.
#[derive(Debug)]
pub struct Location {
    pub id: String,
    pub campaign_id: String,
    pub parent_id: Option<String>,
    pub name: String,
    pub location_type: String,
    pub description: Option<String>,
    pub detail_level: i32,
    pub gm_notes: Option<String>,
    pub created_at: Timestamp,
    pub updated_at: Timestamp,
}

/// The changes asked of a location: a field left out stays as it is.
#[derive(Debug)]
pub struct LocationPatch {
    pub name: Option<String>,
    pub location_type: Option<String>,
    pub parent_id: Option<String>,
    pub description: Option<String>,
    pub detail_level: Option<i32>,
    pub gm_notes: Option<String>,
}

impl LocationPatch {
    /// Whether no change is asked.
    pub open spec fn is_empty(self) -> bool {
        self.name is None
            && self.location_type is None
            && self.parent_id is None
            && self.description is None
            && self.detail_level is None
            && self.gm_notes is None
    }

    /// The patch that asks no change.
    pub fn none() -> (p: Self)
        ensures
            p.is_empty(),
    {
        LocationPatch {
            name: None,
            location_type: None,
            parent_id: None,
            description: None,
            detail_level: None,
            gm_notes: None,
        }
    }
}

impl Location {
    /// The location as it is first stored: what the caller gave, and the
    /// defaults for the rest.
    pub open spec fn created(
        id: String,
        now: Timestamp,
        campaign_id: String,
        parent_id: Option<String>,
        name: String,
        location_type: String,
        description: Option<String>,
    ) -> Location {
        Location {
            id,
            campaign_id,
            parent_id,
            name,
            location_type,
            description,
            detail_level: 0,
            gm_notes: None,
            created_at: now,
            updated_at: now,
        }
    }

    /// Makes the location as it is first stored.
    pub fn new(
        id: String,
        now: Timestamp,
        campaign_id: String,
        parent_id: Option<String>,
        name: String,
        location_type: String,
        description: Option<String>,
    ) -> (row: Location)
        ensures
            row == Location::created(
                id,
                now,
                campaign_id,
                parent_id,
                name,
                location_type,
                description,
            ),
    {
        Location {
            id,
            campaign_id,
            parent_id,
            name,
            location_type,
            description,
            detail_level: 0,
            gm_notes: None,
            created_at: now,
            updated_at: now,
        }
    }

    /// The location after the changes of `patch`, made at `now`: each field
    /// that the patch names takes the new value, every other field but the
    /// time of the last change stays.
    pub open spec fn patched(self, patch: LocationPatch, now: Timestamp) -> Location {
        Location {
            id: self.id,
            campaign_id: self.campaign_id,
            parent_id: match patch.parent_id {
                Some(v) => Some(v),
                None => self.parent_id,
            },
            name: match patch.name {
                Some(v) => v,
                None => self.name,
            },
            location_type: match patch.location_type {
                Some(v) => v,
                None => self.location_type,
            },
            description: match patch.description {
                Some(v) => Some(v),
                None => self.description,
            },
            detail_level: match patch.detail_level {
                Some(v) => v,
                None => self.detail_level,
            },
            gm_notes: match patch.gm_notes {
                Some(v) => Some(v),
                None => self.gm_notes,
            },
            created_at: self.created_at,
            updated_at: now,
        }
    }

    /// Applies the changes of `patch`, made at `now`.
    pub fn apply(self, patch: LocationPatch, now: Timestamp) -> (row: Location)
        ensures
            row == self.patched(patch, now),
    {
        Location {
            id: self.id,
            campaign_id: self.campaign_id,
            parent_id: match patch.parent_id {
                Some(v) => Some(v),
                None => self.parent_id,
            },
            name: match patch.name {
                Some(v) => v,
                None => self.name,
            },
            location_type: match patch.location_type {
                Some(v) => v,
                None => self.location_type,
            },
            description: match patch.description {
                Some(v) => Some(v),
                None => self.description,
            },
            detail_level: match patch.detail_level {
                Some(v) => v,
                None => self.detail_level,
            },
            gm_notes: match patch.gm_notes {
                Some(v) => Some(v),
                None => self.gm_notes,
            },
            created_at: self.created_at,
            updated_at: now,
        }
    }

    /// A patch that asks no change leaves every field as it is, but for
    /// the time of the last change.
    pub proof fn lemma_empty_patch_keeps_fields(self, patch: LocationPatch, now: Timestamp)
        requires
            patch.is_empty(),
        ensures
            self.patched(patch, now) == (Location { updated_at: now, ..self }),
    {
    }

    /// Whatever the patch asks, the identity of the row, the row that owns
    /// it and the time it was made stay.
    pub proof fn lemma_patch_keeps_identity(self, patch: LocationPatch, now: Timestamp)
        ensures
            self.patched(patch, now).id == self.id,
            self.patched(patch, now).campaign_id == self.campaign_id,
            self.patched(patch, now).created_at == self.created_at,
            self.patched(patch, now).updated_at == now,
    {
    }
}

impl Row for Location {
    open spec fn key(&self) -> Seq<char> {
        self.id@
    }

    open spec fn owner(&self) -> Seq<char> {
        self.campaign_id@
    }

    open spec fn before(&self, other: &Self) -> bool {
        text_le(self.name@, other.name@)
    }

    fn id(&self) -> (r: &String) {
        &self.id
    }

    fn owner_id(&self) -> (r: &String) {
        &self.campaign_id
    }

    fn comes_before(&self, other: &Self) -> (r: bool) {
        text_precedes(self.name.as_str(), other.name.as_str())
    }

    fn copy(&self) -> (r: Self) {
        Location {
            id: self.id.clone(),
            campaign_id: self.campaign_id.clone(),
            parent_id: copy_text(&self.parent_id),
            name: self.name.clone(),
            location_type: self.location_type.clone(),
            description: copy_text(&self.description),
            detail_level: self.detail_level,
            gm_notes: copy_text(&self.gm_notes),
            created_at: self.created_at,
            updated_at: self.updated_at,
        }
    }

    proof fn lemma_before_total(a: &Self, b: &Self) {
        lemma_text_le_total(a.name@, b.name@);
    }

    proof fn lemma_before_transitive(a: &Self, b: &Self, c: &Self) {
        lemma_text_le_transitive(a.name@, b.name@, c.name@);
    }
}

impl Indexed for Location {
    open spec fn kind() -> IndexedKind {
        IndexedKind::Location
    }

    open spec fn index_name(&self) -> Seq<char> {
        self.name@
    }

    open spec fn index_content(&self) -> Seq<char> {
        text_or_empty(self.description)
    }

    fn project(&self) -> (e: IndexEntry) {
        let name = self.name.clone();
        let mut content = String::new();
        match &self.description {
            Some(t) => content.append(t.as_str()),
            None => {},
        }
        IndexEntry {
            kind: IndexedKind::Location,
            entity_id: self.id.clone(),
            campaign_id: self.campaign_id.clone(),
            name,
            content,
        }
    }
}

} // verus!
