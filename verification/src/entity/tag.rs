//! A label of a campaign that can be attached to any entity.

use crate::clock::Timestamp;
use crate::table::Row;
use crate::text::{copy_text, lemma_text_le_total, lemma_text_le_transitive, text_le, text_precedes};
use vstd::prelude::*;

verus! {

/// A label of a campaign that can be attached to any entity.
#[derive(Debug)]
pub struct Tag {
    pub id: String,
    pub campaign_id: String,
    pub name: String,
    pub color: Option<String>,
    pub created_at: Timestamp,
}

impl Tag {
    /// The tag as it is first stored: what the caller gave, and the
    /// defaults for the rest.
    pub open spec fn created(
        id: String,
        now: Timestamp,
        campaign_id: String,
        name: String,
        color: Option<String>,
    ) -> Tag {
        Tag {
            id,
            campaign_id,
            name,
            color,
            created_at: now,
        }
    }

    /// Makes the tag as it is first stored.
    pub fn new(
        id: String,
        now: Timestamp,
        campaign_id: String,
        name: String,
        color: Option<String>,
    ) -> (row: Tag)
        ensures
            row == Tag::created(id, now, campaign_id, name, color),
    {
        Tag {
            id,
            campaign_id,
            name,
            color,
            created_at: now,
        }
    }
}

impl Row for Tag {
    open spec fn key(&self) -> Seq<char> {
        self.id@
    }

    open spec fn owner(&self) -> Seq<char> {
        self.campaign_id@
    }

    open spec fn before(&self, other: &Self) -> bool {
        text_le(self.name@, other.name@)
    }

    fn id(&self) -> (r: &String) {
        &self.id
    }

    fn owner_id(&self) -> (r: &String) {
        &self.campaign_id
    }

    fn comes_before(&self, other: &Self) -> (r: bool) {
        text_precedes(self.name.as_str(), other.name.as_str())
    }

    fn copy(&self) -> (r: Self) {
        Tag {
            id: self.id.clone(),
            campaign_id: self.campaign_id.clone(),
            name: self.name.clone(),
            color: copy_text(&self.color),
            created_at: self.created_at,
        }
    }

    proof fn lemma_before_total(a: &Self, b: &Self) {
        lemma_text_le_total(a.name@, b.name@);
    }

    proof fn lemma_before_transitive(a: &Self, b: &Self, c: &Self) {
        lemma_text_le_transitive(a.name@, b.name@, c.name@);
    }
}

} // verus!
