//! A thread of the plot that the heroes may follow.

use crate::clock::Timestamp;
use crate::search_index::{IndexEntry, IndexedKind, Indexed};
use crate::table::Row;
use crate::text::{
    copy_text, lemma_text_le_total, lemma_text_le_transitive, text_le, text_or_empty, text_precedes,
};
use vstd::prelude::*;
use vstd::string::*;

verus! {

/// A thread of the plot that the heroes may follow.
#[derive(Debug)]
pub struct Quest {
    pub id: String,
    pub campaign_id: String,
    pub name: String,
    pub status: String,
    pub plot_type: String,
    pub description: Option<String>,
    pub hook: Option<String>,
    pub objectives: Option<String>,
    pub complications: Option<String>,
    pub resolution: Option<String>,
    pub reward: Option<String>,
    pub created_at: Timestamp,
    pub updated_at: Timestamp,
}

/// The changes asked of a quest: a field left out stays as it is.
#[derive(Debug)]
pub struct QuestPatch {
    pub name: Option<String>,
    pub status: Option<String>,
    pub plot_type: Option<String>,
    pub description: Option<String>,
    pub hook: Option<String>,
    pub objectives: Option<String>,
    pub complications: Option<String>,
    pub resolution: Option<String>,
    pub reward: Option<String>,
}

impl QuestPatch {
    /// Whether no change is asked.
    pub open spec fn is_empty(self) -> bool {
        self.name is None
            && self.status is None
            && self.plot_type is None
            && self.description is None
            && self.hook is None
            && self.objectives is None
            && self.complications is None
            && self.resolution is None
            && self.reward is None
    }

    /// The patch that asks no change.
    pub fn none() -> (p: Self)
        ensures
            p.is_empty(),
    {
        QuestPatch {
            name: None,
            status: None,
            plot_type: None,
            description: None,
            hook: None,
            objectives: None,
            complications: None,
            resolution: None,
            reward: None,
        }
    }
}

impl Quest {
    /// The quest as it is first stored: what the caller gave, and the
    /// defaults for the rest.
    pub open spec fn created(
        id: String,
        now: Timestamp,
        campaign_id: String,
        name: String,
        status: String,
        plot_type: String,
        description: Option<String>,
        hook: Option<String>,
    ) -> Quest {
        Quest {
            id,
            campaign_id,
            name,
            status,
            plot_type,
            description,
            hook,
            objectives: None,
            complications: None,
            resolution: None,
            reward: None,
            created_at: now,
            updated_at: now,
        }
    }

    /// Makes the quest as it is first stored.
    pub fn new(
        id: String,
        now: Timestamp,
        campaign_id: String,
        name: String,
        status: String,
        plot_type: String,
        description: Option<String>,
        hook: Option<String>,
    ) -> (row: Quest)
        ensures
            row == Quest::created(id, now, campaign_id, name, status, plot_type, description, hook),
    {
        Quest {
            id,
            campaign_id,
            name,
            status,
            plot_type,
            description,
            hook,
            objectives: None,
            complications: None,
            resolution: None,
            reward: None,
            created_at: now,
            updated_at: now,
        }
    }

    /// The quest after the changes of `patch`, made at `now`: each field
    /// that the patch names takes the new value, every other field but the
    /// time of the last change stays.
    pub open spec fn patched(self, patch: QuestPatch, now: Timestamp) -> Quest {
        Quest {
            id: self.id,
            campaign_id: self.campaign_id,
            name: match patch.name {
                Some(v) => v,
                None => self.name,
            },
            status: match patch.status {
                Some(v) => v,
                None => self.status,
            },
            plot_type: match patch.plot_type {
                Some(v) => v,
                None => self.plot_type,
            },
            description: match patch.description {
                Some(v) => Some(v),
                None => self.description,
            },
            hook: match patch.hook {
                Some(v) => Some(v),
                None => self.hook,
            },
            objectives: match patch.objectives {
                Some(v) => Some(v),
                None => self.objectives,
            },
            complications: match patch.complications {
                Some(v) => Some(v),
                None => self.complications,
            },
            resolution: match patch.resolution {
                Some(v) => Some(v),
                None => self.resolution,
            },
            reward: match patch.reward {
                Some(v) => Some(v),
                None => self.reward,
            },
            created_at: self.created_at,
            updated_at: now,
        }
    }

    /// Applies the changes of `patch`, made at `now`.
    pub fn apply(self, patch: QuestPatch, now: Timestamp) -> (row: Quest)
        ensures
            row == self.patched(patch, now),
    {
        Quest {
            id: self.id,
            campaign_id: self.campaign_id,
            name: match patch.name {
                Some(v) => v,
                None => self.name,
            },
            status: match patch.status {
                Some(v) => v,
                None => self.status,
            },
            plot_type: match patch.plot_type {
                Some(v) => v,
                None => self.plot_type,
            },
            description: match patch.description {
                Some(v) => Some(v),
                None => self.description,
            },
            hook: match patch.hook {
                Some(v) => Some(v),
                None => self.hook,
            },
            objectives: match patch.objectives {
                Some(v) => Some(v),
                None => self.objectives,
            },
            complications: match patch.complications {
                Some(v) => Some(v),
                None => self.complications,
            },
            resolution: match patch.resolution {
                Some(v) => Some(v),
                None => self.resolution,
            },
            reward: match patch.reward {
                Some(v) => Some(v),
                None => self.reward,
            },
            created_at: self.created_at,
            updated_at: now,
        }
    }

    /// A patch that asks no change leaves every field as it is, but for
    /// the time of the last change.
    pub proof fn lemma_empty_patch_keeps_fields(self, patch: QuestPatch, now: Timestamp)
        requires
            patch.is_empty(),
        ensures
            self.patched(patch, now) == (Quest { updated_at: now, ..self }),
    {
    }

    /// Whatever the patch asks, the identity of the row, the row that owns
    /// it and the time it was made stay.
    pub proof fn lemma_patch_keeps_identity(self, patch: QuestPatch, now: Timestamp)
        ensures
            self.patched(patch, now).id == self.id,
            self.patched(patch, now).campaign_id == self.campaign_id,
            self.patched(patch, now).created_at == self.created_at,
            self.patched(patch, now).updated_at == now,
    {
    }
}

impl Row for Quest {
    open spec fn key(&self) -> Seq<char> {
        self.id@
    }

    open spec fn owner(&self) -> Seq<char> {
        self.campaign_id@
    }

    open spec fn before(&self, other: &Self) -> bool {
        text_le(self.name@, other.name@)
    }

    fn id(&self) -> (r: &String) {
        &self.id
    }

    fn owner_id(&self) -> (r: &String) {
        &self.campaign_id
    }

    fn comes_before(&self, other: &Self) -> (r: bool) {
        text_precedes(self.name.as_str(), other.name.as_str())
    }

    fn copy(&self) -> (r: Self) {
        Quest {
            id: self.id.clone(),
            campaign_id: self.campaign_id.clone(),
            name: self.name.clone(),
            status: self.status.clone(),
            plot_type: self.plot_type.clone(),
            description: copy_text(&self.description),
            hook: copy_text(&self.hook),
            objectives: copy_text(&self.objectives),
            complications: copy_text(&self.complications),
            resolution: copy_text(&self.resolution),
            reward: copy_text(&self.reward),
            created_at: self.created_at,
            updated_at: self.updated_at,
        }
    }

    proof fn lemma_before_total(a: &Self, b: &Self) {
        lemma_text_le_total(a.name@, b.name@);
    }

    proof fn lemma_before_transitive(a: &Self, b: &Self, c: &Self) {
        lemma_text_le_transitive(a.name@, b.name@, c.name@);
    }
}

impl Indexed for Quest {
    open spec fn kind() -> IndexedKind {
        IndexedKind::Quest
    }

    open spec fn index_name(&self) -> Seq<char> {
        self.name@
    }

    open spec fn index_content(&self) -> Seq<char> {
        text_or_empty(self.description)
            + " "@ + text_or_empty(self.hook)
            + " "@ + text_or_empty(self.objectives)
    }

    fn project(&self) -> (e: IndexEntry) {
        let name = self.name.clone();
        let mut content = String::new();
        match &self.description {
            Some(t) => content.append(t.as_str()),
            None => {},
        }
        content.append(" ");
        match &self.hook {
            Some(t) => content.append(t.as_str()),
            None => {},
        }
        content.append(" ");
        match &self.objectives {
            Some(t) => content.append(t.as_str()),
            None => {},
        }
        IndexEntry {
            kind: IndexedKind::Quest,
            entity_id: self.id.clone(),
            campaign_id: self.campaign_id.clone(),
            name,
            content,
        }
    }
}

} // verus!
