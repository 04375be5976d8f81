//! A character that a player plays.

use crate::clock::Timestamp;
use crate::search_index::{IndexEntry, IndexedKind, Indexed};
use crate::table::Row;
use crate::text::{
    copy_text, lemma_text_le_total, lemma_text_le_transitive, text_le, text_or_empty, text_precedes,
};
use vstd::prelude::*;
use vstd::string::*;

verus! {

/// A character that a player plays.
#[derive(Debug)]
pub struct Hero {
    pub id: String,
    pub campaign_id: String,
    pub player_id: Option<String>,
    pub name: String,
    pub lineage: Option<String>,
    pub classes: Option<String>,
    pub description: Option<String>,
    pub backstory: Option<String>,
    pub goals: Option<String>,
    pub bonds: Option<String>,
    pub is_active: bool,
    pub created_at: Timestamp,
    pub updated_at: Timestamp,
}

/// The changes asked of a hero: a field left out stays as it is.
#[derive(Debug)]
pub struct HeroPatch {
    pub name: Option<String>,
    pub player_id: Option<String>,
    pub lineage: Option<String>,
    pub classes: Option<String>,
    pub description: Option<String>,
    pub backstory: Option<String>,
    pub goals: Option<String>,
    pub bonds: Option<String>,
    pub is_active: Option<bool>,
}

impl HeroPatch {
    /// Whether no change is asked.
    pub open spec fn is_empty(self) -> bool {
        self.name is None
            && self.player_id is None
            && self.lineage is None
            && self.classes is None
            && self.description is None
            && self.backstory is None
            && self.goals is None
            && self.bonds is None
            && self.is_active is None
    }

    /// The patch that asks no change.
    pub fn none() -> (p: Self)
        ensures
            p.is_empty(),
    {
        HeroPatch {
            name: None,
            player_id: None,
            lineage: None,
            classes: None,
            description: None,
            backstory: None,
            goals: None,
            bonds: None,
            is_active: None,
        }
    }
}

impl Hero {
    /// The hero as it is first stored: what the caller gave, and the
    /// defaults for the rest.
    pub open spec fn created(
        id: String,
        now: Timestamp,
        campaign_id: String,
        player_id: Option<String>,
        name: String,
        lineage: Option<String>,
        classes: Option<String>,
        description: Option<String>,
    ) -> Hero {
        Hero {
            id,
            campaign_id,
            player_id,
            name,
            lineage,
            classes,
            description,
            backstory: None,
            goals: None,
            bonds: None,
            is_active: true,
            created_at: now,
            updated_at: now,
        }
    }

    /// Makes the hero as it is first stored.
    pub fn new(
        id: String,
        now: Timestamp,
        campaign_id: String,
        player_id: Option<String>,
        name: String,
        lineage: Option<String>,
        classes: Option<String>,
        description: Option<String>,
    ) -> (row: Hero)
        ensures
            row == Hero::created(
                id,
                now,
                campaign_id,
                player_id,
                name,
                lineage,
                classes,
                description,
            ),
    {
        Hero {
            id,
            campaign_id,
            player_id,
            name,
            lineage,
            classes,
            description,
            backstory: None,
            goals: None,
            bonds: None,
            is_active: true,
            created_at: now,
            updated_at: now,
        }
    }

    /// The hero after the changes of `patch`, made at `now`: each field
    /// that the patch names takes the new value, every other field but the
    /// time of the last change stays.
    pub open spec fn patched(self, patch: HeroPatch, now: Timestamp) -> Hero {
        Hero {
            id: self.id,
            campaign_id: self.campaign_id,
            player_id: match patch.player_id {
                Some(v) => Some(v),
                None => self.player_id,
            },
            name: match patch.name {
                Some(v) => v,
                None => self.name,
            },
            lineage: match patch.lineage {
                Some(v) => Some(v),
                None => self.lineage,
            },
            classes: match patch.classes {
                Some(v) => Some(v),
                None => self.classes,
            },
            description: match patch.description {
                Some(v) => Some(v),
                None => self.description,
            },
            backstory: match patch.backstory {
                Some(v) => Some(v),
                None => self.backstory,
            },
            goals: match patch.goals {
                Some(v) => Some(v),
                None => self.goals,
            },
            bonds: match patch.bonds {
                Some(v) => Some(v),
                None => self.bonds,
            },
            is_active: match patch.is_active {
                Some(v) => v,
                None => self.is_active,
            },
            created_at: self.created_at,
            updated_at: now,
        }
    }

    /// Applies the changes of `patch`, made at `now`.
    pub fn apply(self, patch: HeroPatch, now: Timestamp) -> (row: Hero)
        ensures
            row == self.patched(patch, now),
    {
        Hero {
            id: self.id,
            campaign_id: self.campaign_id,
            player_id: match patch.player_id {
                Some(v) => Some(v),
                None => self.player_id,
            },
            name: match patch.name {
                Some(v) => v,
                None => self.name,
            },
            lineage: match patch.lineage {
                Some(v) => Some(v),
                None => self.lineage,
            },
            classes: match patch.classes {
                Some(v) => Some(v),
                None => self.classes,
            },
            description: match patch.description {
                Some(v) => Some(v),
                None => self.description,
            },
            backstory: match patch.backstory {
                Some(v) => Some(v),
                None => self.backstory,
            },
            goals: match patch.goals {
                Some(v) => Some(v),
                None => self.goals,
            },
            bonds: match patch.bonds {
                Some(v) => Some(v),
                None => self.bonds,
            },
            is_active: match patch.is_active {
                Some(v) => v,
                None => self.is_active,
            },
            created_at: self.created_at,
            updated_at: now,
        }
    }

    /// A patch that asks no change leaves every field as it is, but for
    /// the time of the last change.
    pub proof fn lemma_empty_patch_keeps_fields(self, patch: HeroPatch, now: Timestamp)
        requires
            patch.is_empty(),
        ensures
            self.patched(patch, now) == (Hero { updated_at: now, ..self }),
    {
    }

    /// Whatever the patch asks, the identity of the row, the row that owns
    /// it and the time it was made stay.
    pub proof fn lemma_patch_keeps_identity(self, patch: HeroPatch, now: Timestamp)
        ensures
            self.patched(patch, now).id == self.id,
            self.patched(patch, now).campaign_id == self.campaign_id,
            self.patched(patch, now).created_at == self.created_at,
            self.patched(patch, now).updated_at == now,
    {
    }
}

impl Row for Hero {
    open spec fn key(&self) -> Seq<char> {
        self.id@
    }

    open spec fn owner(&self) -> Seq<char> {
        self.campaign_id@
    }

    open spec fn before(&self, other: &Self) -> bool {
        text_le(self.name@, other.name@)
    }

    fn id(&self) -> (r: &String) {
        &self.id
    }

    fn owner_id(&self) -> (r: &String) {
        &self.campaign_id
    }

    fn comes_before(&self, other: &Self) -> (r: bool) {
        text_precedes(self.name.as_str(), other.name.as_str())
    }

    fn copy(&self) -> (r: Self) {
        Hero {
            id: self.id.clone(),
            campaign_id: self.campaign_id.clone(),
            player_id: copy_text(&self.player_id),
            name: self.name.clone(),
            lineage: copy_text(&self.lineage),
            classes: copy_text(&self.classes),
            description: copy_text(&self.description),
            backstory: copy_text(&self.backstory),
            goals: copy_text(&self.goals),
            bonds: copy_text(&self.bonds),
            is_active: self.is_active,
            created_at: self.created_at,
            updated_at: self.updated_at,
        }
    }

    proof fn lemma_before_total(a: &Self, b: &Self) {
        lemma_text_le_total(a.name@, b.name@);
    }

    proof fn lemma_before_transitive(a: &Self, b: &Self, c: &Self) {
        lemma_text_le_transitive(a.name@, b.name@, c.name@);
    }
}

impl Indexed for Hero {
    open spec fn kind() -> IndexedKind {
        IndexedKind::Hero
    }

    open spec fn index_name(&self) -> Seq<char> {
        self.name@
    }

    open spec fn index_content(&self) -> Seq<char> {
        text_or_empty(self.description) + " "@ + text_or_empty(self.backstory)
    }

    fn project(&self) -> (e: IndexEntry) {
        let name = self.name.clone();
        let mut content = String::new();
        match &self.description {
            Some(t) => content.append(t.as_str()),
            None => {},
        }
        content.append(" ");
        match &self.backstory {
            Some(t) => content.append(t.as_str()),
            None => {},
        }
        IndexEntry {
            kind: IndexedKind::Hero,
            entity_id: self.id.clone(),
            campaign_id: self.campaign_id.clone(),
            name,
            content,
        }
    }
}

} // verus!
