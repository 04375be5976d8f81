//! The inputs of the queries that take more than an identifier.

use vstd::prelude::*;

verus! {

/// Asks for the rows of one campaign.
#[derive(Debug)]
pub struct ListByCampaignInput {
    pub campaign_id: String,
}

/// Asks for the locations directly below one location.
#[derive(Debug)]
pub struct GetChildrenInput {
    pub parent_id: String,
}

/// Asks for what is attached to one entity, named by its kind and identifier.
#[derive(Debug)]
pub struct EntityScopedInput {
    pub entity_type: String,
    pub entity_id: String,
}

/// Asks for a full-text search within one campaign.
#[derive(Debug)]
pub struct SearchInput {
    pub campaign_id: String,
    pub query: String,
    pub entity_types: Option<Vec<String>>,
    pub limit: Option<i32>,
}

} // verus!
