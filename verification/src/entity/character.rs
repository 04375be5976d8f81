//! A character of the world that the game master plays.

use crate::clock::Timestamp;
use crate::search_index::{IndexEntry, IndexedKind, Indexed};
use crate::table::Row;
use crate::text::{
    copy_text, lemma_text_le_total, lemma_text_le_transitive, text_le, text_or_empty, text_precedes,
};
use vstd::prelude::*;
use vstd::string::*;

verus! {

/// A character of the world that the game master plays.
#[derive(Debug)]
pub struct Character {
    pub id: String,
    pub campaign_id: String,
    pub name: String,
    pub lineage: Option<String>,
    pub occupation: Option<String>,
    pub is_alive: bool,
    pub description: Option<String>,
    pub personality: Option<String>,
    pub motivations: Option<String>,
    pub secrets: Option<String>,
    pub voice_notes: Option<String>,
    pub stat_block_json: Option<String>,
    pub created_at: Timestamp,
    pub updated_at: Timestamp,
}

/// The changes asked of a character: a field left out stays as it is.
#[derive(Debug)]
pub struct CharacterPatch {
    pub name: Option<String>,
    pub lineage: Option<String>,
    pub occupation: Option<String>,
    pub is_alive: Option<bool>,
    pub description: Option<String>,
    pub personality: Option<String>,
    pub motivations: Option<String>,
    pub secrets: Option<String>,
    pub voice_notes: Option<String>,
    pub stat_block_json: Option<String>,
}

impl CharacterPatch {
    /// Whether no change is asked.
    pub open spec fn is_empty(self) -> bool {
        self.name is None
            && self.lineage is None
            && self.occupation is None
            && self.is_alive is None
            && self.description is None
            && self.personality is None
            && self.motivations is None
            && self.secrets is None
            && self.voice_notes is None
            && self.stat_block_json is None
    }

    /// The patch that asks no change.
    pub fn none() -> (p: Self)
        ensures
            p.is_empty(),
    {
        CharacterPatch {
            name: None,
            lineage: None,
            occupation: None,
            is_alive: None,
            description: None,
            personality: None,
            motivations: None,
            secrets: None,
            voice_notes: None,
            stat_block_json: None,
        }
    }
}

impl Character {
    /// The character as it is first stored: what the caller gave, and the
    /// defaults for the rest.
    pub open spec fn created(
        id: String,
        now: Timestamp,
        campaign_id: String,
        name: String,
        lineage: Option<String>,
        occupation: Option<String>,
        description: Option<String>,
        personality: Option<String>,
        motivations: Option<String>,
        secrets: Option<String>,
        voice_notes: Option<String>,
    ) -> Character {
        Character {
            id,
            campaign_id,
            name,
            lineage,
            occupation,
            is_alive: true,
            description,
            personality,
            motivations,
            secrets,
            voice_notes,
            stat_block_json: None,
            created_at: now,
            updated_at: now,
        }
    }

    /// Makes the character as it is first stored.
    pub fn new(
        id: String,
        now: Timestamp,
        campaign_id: String,
        name: String,
        lineage: Option<String>,
        occupation: Option<String>,
        description: Option<String>,
        personality: Option<String>,
        motivations: Option<String>,
        secrets: Option<String>,
        voice_notes: Option<String>,
    ) -> (row: Character)
        ensures
            row == Character::created(
                id,
                now,
                campaign_id,
                name,
                lineage,
                occupation,
                description,
                personality,
                motivations,
                secrets,
                voice_notes,
            ),
    {
        Character {
            id,
            campaign_id,
            name,
            lineage,
            occupation,
            is_alive: true,
            description,
            personality,
            motivations,
            secrets,
            voice_notes,
            stat_block_json: None,
            created_at: now,
            updated_at: now,
        }
    }

    /// The character after the changes of `patch`, made at `now`: each field
    /// that the patch names takes the new value, every other field but the
    /// time of the last change stays.
    pub open spec fn patched(self, patch: CharacterPatch, now: Timestamp) -> Character {
        Character {
            id: self.id,
            campaign_id: self.campaign_id,
            name: match patch.name {
                Some(v) => v,
                None => self.name,
            },
            lineage: match patch.lineage {
                Some(v) => Some(v),
                None => self.lineage,
            },
            occupation: match patch.occupation {
                Some(v) => Some(v),
                None => self.occupation,
            },
            is_alive: match patch.is_alive {
                Some(v) => v,
                None => self.is_alive,
            },
            description: match patch.description {
                Some(v) => Some(v),
                None => self.description,
            },
            personality: match patch.personality {
                Some(v) => Some(v),
                None => self.personality,
            },
            motivations: match patch.motivations {
                Some(v) => Some(v),
                None => self.motivations,
            },
            secrets: match patch.secrets {
                Some(v) => Some(v),
                None => self.secrets,
            },
            voice_notes: match patch.voice_notes {
                Some(v) => Some(v),
                None => self.voice_notes,
            },
            stat_block_json: match patch.stat_block_json {
                Some(v) => Some(v),
                None => self.stat_block_json,
            },
            created_at: self.created_at,
            updated_at: now,
        }
    }

    /// Applies the changes of `patch`, made at `now`.
    pub fn apply(self, patch: CharacterPatch, now: Timestamp) -> (row: Character)
        ensures
            row == self.patched(patch, now),
    {
        Character {
            id: self.id,
            campaign_id: self.campaign_id,
            name: match patch.name {
                Some(v) => v,
                None => self.name,
            },
            lineage: match patch.lineage {
                Some(v) => Some(v),
                None => self.lineage,
            },
            occupation: match patch.occupation {
                Some(v) => Some(v),
                None => self.occupation,
            },
            is_alive: match patch.is_alive {
                Some(v) => v,
                None => self.is_alive,
            },
            description: match patch.description {
                Some(v) => Some(v),
                None => self.description,
            },
            personality: match patch.personality {
                Some(v) => Some(v),
                None => self.personality,
            },
            motivations: match patch.motivations {
                Some(v) => Some(v),
                None => self.motivations,
            },
            secrets: match patch.secrets {
                Some(v) => Some(v),
                None => self.secrets,
            },
            voice_notes: match patch.voice_notes {
                Some(v) => Some(v),
                None => self.voice_notes,
            },
            stat_block_json: match patch.stat_block_json {
                Some(v) => Some(v),
                None => self.stat_block_json,
            },
            created_at: self.created_at,
            updated_at: now,
        }
    }

    /// A patch that asks no change leaves every field as it is, but for
    /// the time of the last change.
    pub proof fn lemma_empty_patch_keeps_fields(self, patch: CharacterPatch, now: Timestamp)
        requires
            patch.is_empty(),
        ensures
            self.patched(patch, now) == (Character { updated_at: now, ..self }),
    {
    }

    /// Whatever the patch asks, the identity of the row, the row that owns
    /// it and the time it was made stay.
    pub proof fn lemma_patch_keeps_identity(self, patch: CharacterPatch, now: Timestamp)
        ensures
            self.patched(patch, now).id == self.id,
            self.patched(patch, now).campaign_id == self.campaign_id,
            self.patched(patch, now).created_at == self.created_at,
            self.patched(patch, now).updated_at == now,
    {
    }
}

impl Row for Character {
    open spec fn key(&self) -> Seq<char> {
        self.id@
    }

    open spec fn owner(&self) -> Seq<char> {
        self.campaign_id@
    }

    open spec fn before(&self, other: &Self) -> bool {
        text_le(self.name@, other.name@)
    }

    fn id(&self) -> (r: &String) {
        &self.id
    }

    fn owner_id(&self) -> (r: &String) {
        &self.campaign_id
    }

    fn comes_before(&self, other: &Self) -> (r: bool) {
        text_precedes(self.name.as_str(), other.name.as_str())
    }

    fn copy(&self) -> (r: Self) {
        Character {
            id: self.id.clone(),
            campaign_id: self.campaign_id.clone(),
            name: self.name.clone(),
            lineage: copy_text(&self.lineage),
            occupation: copy_text(&self.occupation),
            is_alive: self.is_alive,
            description: copy_text(&self.description),
            personality: copy_text(&self.personality),
            motivations: copy_text(&self.motivations),
            secrets: copy_text(&self.secrets),
            voice_notes: copy_text(&self.voice_notes),
            stat_block_json: copy_text(&self.stat_block_json),
            created_at: self.created_at,
            updated_at: self.updated_at,
        }
    }

    proof fn lemma_before_total(a: &Self, b: &Self) {
        lemma_text_le_total(a.name@, b.name@);
    }

    proof fn lemma_before_transitive(a: &Self, b: &Self, c: &Self) {
        lemma_text_le_transitive(a.name@, b.name@, c.name@);
    }
}

impl Indexed for Character {
    open spec fn kind() -> IndexedKind {
        IndexedKind::Character
    }

    open spec fn index_name(&self) -> Seq<char> {
        self.name@
    }

    open spec fn index_content(&self) -> Seq<char> {
        text_or_empty(self.description)
            + " "@ + text_or_empty(self.personality)
            + " "@ + text_or_empty(self.motivations)
    }

    fn project(&self) -> (e: IndexEntry) {
        let name = self.name.clone();
        let mut content = String::new();
        match &self.description {
            Some(t) => content.append(t.as_str()),
            None => {},
        }
        content.append(" ");
        match &self.personality {
            Some(t) => content.append(t.as_str()),
            None => {},
        }
        content.append(" ");
        match &self.motivations {
            Some(t) => content.append(t.as_str()),
            None => {},
        }
        IndexEntry {
            kind: IndexedKind::Character,
            entity_id: self.id.clone(),
            campaign_id: self.campaign_id.clone(),
            name,
            content,
        }
    }
}

} // verus!
