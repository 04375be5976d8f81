//! A group with aims of its own: a guild, a government, a family.

use crate::clock::Timestamp;
use crate::search_index::{IndexEntry, IndexedKind, Indexed};
use crate::table::Row;
use crate::text::{
    copy_text, lemma_text_le_total, lemma_text_le_transitive, text_le, text_or_empty, text_precedes,
};
use vstd::prelude::*;
use vstd::string::*;

verus! {

/// A group with aims of its own: a guild, a government, a family.
#[derive(Debug)]
pub struct Organization {
    pub id: String,
    pub campaign_id: String,
    pub name: String,
    pub org_type: String,
    pub description: Option<String>,
    pub goals: Option<String>,
    pub resources: Option<String>,
    pub reputation: Option<String>,
    pub secrets: Option<String>,
    pub is_active: bool,
    pub created_at: Timestamp,
    pub updated_at: Timestamp,
}

/// The changes asked of an organization: a field left out stays as it is.
#[derive(Debug)]
pub struct OrganizationPatch {
    pub name: Option<String>,
    pub org_type: Option<String>,
    pub description: Option<String>,
    pub goals: Option<String>,
    pub resources: Option<String>,
    pub reputation: Option<String>,
    pub secrets: Option<String>,
    pub is_active: Option<bool>,
}

impl OrganizationPatch {
    /// Whether no change is asked.
    pub open spec fn is_empty(self) -> bool {
        self.name is None
            && self.org_type is None
            && self.description is None
            && self.goals is None
            && self.resources is None
            && self.reputation is None
            && self.secrets is None
            && self.is_active is None
    }

    /// The patch that asks no change.
    pub fn none() -> (p: Self)
        ensures
            p.is_empty(),
    {
        OrganizationPatch {
            name: None,
            org_type: None,
            description: None,
            goals: None,
            resources: None,
            reputation: None,
            secrets: None,
            is_active: None,
        }
    }
}

impl Organization {
    /// The organization as it is first stored: what the caller gave, and the
    /// defaults for the rest.
    pub open spec fn created(
        id: String,
        now: Timestamp,
        campaign_id: String,
        name: String,
        org_type: String,
        description: Option<String>,
        goals: Option<String>,
        resources: Option<String>,
    ) -> Organization {
        Organization {
            id,
            campaign_id,
            name,
            org_type,
            description,
            goals,
            resources,
            reputation: None,
            secrets: None,
            is_active: true,
            created_at: now,
            updated_at: now,
        }
    }

    /// Makes the organization as it is first stored.
    pub fn new(
        id: String,
        now: Timestamp,
        campaign_id: String,
        name: String,
        org_type: String,
        description: Option<String>,
        goals: Option<String>,
        resources: Option<String>,
    ) -> (row: Organization)
        ensures
            row == Organization::created(
                id,
                now,
                campaign_id,
                name,
                org_type,
                description,
                goals,
                resources,
            ),
    {
        Organization {
            id,
            campaign_id,
            name,
            org_type,
            description,
            goals,
            resources,
            reputation: None,
            secrets: None,
            is_active: true,
            created_at: now,
            updated_at: now,
        }
    }

    /// The organization after the changes of `patch`, made at `now`: each field
    /// that the patch names takes the new value, every other field but the
    /// time of the last change stays.
    pub open spec fn patched(self, patch: OrganizationPatch, now: Timestamp) -> Organization {
        Organization {
            id: self.id,
            campaign_id: self.campaign_id,
            name: match patch.name {
                Some(v) => v,
                None => self.name,
            },
            org_type: match patch.org_type {
                Some(v) => v,
                None => self.org_type,
            },
            description: match patch.description {
                Some(v) => Some(v),
                None => self.description,
            },
            goals: match patch.goals {
                Some(v) => Some(v),
                None => self.goals,
            },
            resources: match patch.resources {
                Some(v) => Some(v),
                None => self.resources,
            },
            reputation: match patch.reputation {
                Some(v) => Some(v),
                None => self.reputation,
            },
            secrets: match patch.secrets {
                Some(v) => Some(v),
                None => self.secrets,
            },
            is_active: match patch.is_active {
                Some(v) => v,
                None => self.is_active,
            },
            created_at: self.created_at,
            updated_at: now,
        }
    }

    /// Applies the changes of `patch`, made at `now`.
    pub fn apply(self, patch: OrganizationPatch, now: Timestamp) -> (row: Organization)
        ensures
            row == self.patched(patch, now),
    {
        Organization {
            id: self.id,
            campaign_id: self.campaign_id,
            name: match patch.name {
                Some(v) => v,
                None => self.name,
            },
            org_type: match patch.org_type {
                Some(v) => v,
                None => self.org_type,
            },
            description: match patch.description {
                Some(v) => Some(v),
                None => self.description,
            },
            goals: match patch.goals {
                Some(v) => Some(v),
                None => self.goals,
            },
            resources: match patch.resources {
                Some(v) => Some(v),
                None => self.resources,
            },
            reputation: match patch.reputation {
                Some(v) => Some(v),
                None => self.reputation,
            },
            secrets: match patch.secrets {
                Some(v) => Some(v),
                None => self.secrets,
            },
            is_active: match patch.is_active {
                Some(v) => v,
                None => self.is_active,
            },
            created_at: self.created_at,
            updated_at: now,
        }
    }

    /// A patch that asks no change leaves every field as it is, but for
    /// the time of the last change.
    pub proof fn lemma_empty_patch_keeps_fields(self, patch: OrganizationPatch, now: Timestamp)
        requires
            patch.is_empty(),
        ensures
            self.patched(patch, now) == (Organization { updated_at: now, ..self }),
    {
    }

    /// Whatever the patch asks, the identity of the row, the row that owns
    /// it and the time it was made stay.
    pub proof fn lemma_patch_keeps_identity(self, patch: OrganizationPatch, now: Timestamp)
        ensures
            self.patched(patch, now).id == self.id,
            self.patched(patch, now).campaign_id == self.campaign_id,
            self.patched(patch, now).created_at == self.created_at,
            self.patched(patch, now).updated_at == now,
    {
    }
}

impl Row for Organization {
    open spec fn key(&self) -> Seq<char> {
        self.id@
    }

    open spec fn owner(&self) -> Seq<char> {
        self.campaign_id@
    }

    open spec fn before(&self, other: &Self) -> bool {
        text_le(self.name@, other.name@)
    }

    fn id(&self) -> (r: &String) {
        &self.id
    }

    fn owner_id(&self) -> (r: &String) {
        &self.campaign_id
    }

    fn comes_before(&self, other: &Self) -> (r: bool) {
        text_precedes(self.name.as_str(), other.name.as_str())
    }

    fn copy(&self) -> (r: Self) {
        Organization {
            id: self.id.clone(),
            campaign_id: self.campaign_id.clone(),
            name: self.name.clone(),
            org_type: self.org_type.clone(),
            description: copy_text(&self.description),
            goals: copy_text(&self.goals),
            resources: copy_text(&self.resources),
            reputation: copy_text(&self.reputation),
            secrets: copy_text(&self.secrets),
            is_active: self.is_active,
            created_at: self.created_at,
            updated_at: self.updated_at,
        }
    }

    proof fn lemma_before_total(a: &Self, b: &Self) {
        lemma_text_le_total(a.name@, b.name@);
    }

    proof fn lemma_before_transitive(a: &Self, b: &Self, c: &Self) {
        lemma_text_le_transitive(a.name@, b.name@, c.name@);
    }
}

impl Indexed for Organization {
    open spec fn kind() -> IndexedKind {
        IndexedKind::Organization
    }

    open spec fn index_name(&self) -> Seq<char> {
        self.name@
    }

    open spec fn index_content(&self) -> Seq<char> {
        text_or_empty(self.description) + " "@ + text_or_empty(self.goals)
    }

    fn project(&self) -> (e: IndexEntry) {
        let name = self.name.clone();
        let mut content = String::new();
        match &self.description {
            Some(t) => content.append(t.as_str()),
            None => {},
        }
        content.append(" ");
        match &self.goals {
            Some(t) => content.append(t.as_str()),
            None => {},
        }
        IndexEntry {
            kind: IndexedKind::Organization,
            entity_id: self.id.clone(),
            campaign_id: self.campaign_id.clone(),
            name,
            content,
        }
    }
}

} // verus!
