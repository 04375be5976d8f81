//! The thread of talk with the assistant in one context of one campaign.

use crate::clock::Timestamp;
use crate::table::Row;
use vstd::prelude::*;

verus! {

/// The thread of talk with the assistant in one context of one campaign.
#[derive(Debug)]
pub struct AiConversation {
    pub id: String,
    pub campaign_id: String,
    pub context_type: String,
    pub total_input_tokens: i32,
    pub total_output_tokens: i32,
    pub total_cache_read_tokens: i32,
    pub total_cache_creation_tokens: i32,
    pub created_at: Timestamp,
    pub updated_at: Timestamp,
}

impl AiConversation {
    /// The assistant conversation as it is first stored: what the caller gave, and the
    /// defaults for the rest.
    pub open spec fn created(
        id: String,
        now: Timestamp,
        campaign_id: String,
        context_type: String,
    ) -> AiConversation {
        AiConversation {
            id,
            campaign_id,
            context_type,
            total_input_tokens: 0,
            total_output_tokens: 0,
            total_cache_read_tokens: 0,
            total_cache_creation_tokens: 0,
            created_at: now,
            updated_at: now,
        }
    }

    /// Makes the assistant conversation as it is first stored.
    pub fn new(
        id: String,
        now: Timestamp,
        campaign_id: String,
        context_type: String,
    ) -> (row: AiConversation)
        ensures
            row == AiConversation::created(id, now, campaign_id, context_type),
    {
        AiConversation {
            id,
            campaign_id,
            context_type,
            total_input_tokens: 0,
            total_output_tokens: 0,
            total_cache_read_tokens: 0,
            total_cache_creation_tokens: 0,
            created_at: now,
            updated_at: now,
        }
    }
}

impl Row for AiConversation {
    open spec fn key(&self) -> Seq<char> {
        self.id@
    }

    open spec fn owner(&self) -> Seq<char> {
        self.campaign_id@
    }

    open spec fn before(&self, other: &Self) -> bool {
        self.created_at.le(other.created_at)
    }

    fn id(&self) -> (r: &String) {
        &self.id
    }

    fn owner_id(&self) -> (r: &String) {
        &self.campaign_id
    }

    fn comes_before(&self, other: &Self) -> (r: bool) {
        self.created_at.precedes(&other.created_at)
    }

    fn copy(&self) -> (r: Self) {
        AiConversation {
            id: self.id.clone(),
            campaign_id: self.campaign_id.clone(),
            context_type: self.context_type.clone(),
            total_input_tokens: self.total_input_tokens,
            total_output_tokens: self.total_output_tokens,
            total_cache_read_tokens: self.total_cache_read_tokens,
            total_cache_creation_tokens: self.total_cache_creation_tokens,
            created_at: self.created_at,
            updated_at: self.updated_at,
        }
    }

    proof fn lemma_before_total(a: &Self, b: &Self) {
    }

    proof fn lemma_before_transitive(a: &Self, b: &Self, c: &Self) {
    }
}

} // verus!
