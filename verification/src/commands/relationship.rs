//! Relationships between entities: storing, reading, listing, changing and
//! removing them.

use crate::clock::Timestamp;
use crate::db::{Database, Snapshot};
use crate::entity::relationship::{Relationship, RelationshipPatch};
use crate::error::{foreign_key_text, not_found_text, unique_text, AppError};
use crate::ident::{is_random_uuid_text, new_id};
use crate::table::{
    find, has_key, has_other_key, index_of, lemma_filter_keys, lemma_find_at, lemma_push_keys,
    lemma_update_keys, listed, owned_by, sort_rows, without_key, Row,
};
use vstd::prelude::*;

verus! {

/// A relationship as it is handed to the caller.
#[derive(Debug)]
pub struct RelationshipResponse {
    pub id: String,
    pub campaign_id: String,
    pub source_type: String,
    pub source_id: String,
    pub target_type: String,
    pub target_id: String,
    pub relationship_type: String,
    pub description: Option<String>,
    pub is_bidirectional: bool,
    pub strength: Option<i32>,
    pub is_public: bool,
    pub created_at: String,
    pub updated_at: String,
}

impl RelationshipResponse {
    /// Whether the response shows `row`: every field as stored, times and
    /// dates as their display texts.
    pub open spec fn represents(self, row: Relationship) -> bool {
        &&& self.id == row.id
        &&& self.campaign_id == row.campaign_id
        &&& self.source_type == row.source_type
        &&& self.source_id == row.source_id
        &&& self.target_type == row.target_type
        &&& self.target_id == row.target_id
        &&& self.relationship_type == row.relationship_type
        &&& self.description == row.description
        &&& self.is_bidirectional == row.is_bidirectional
        &&& self.strength == row.strength
        &&& self.is_public == row.is_public
        &&& self.created_at@ == row.created_at.text()
        &&& self.updated_at@ == row.updated_at.text()
    }

    /// Whether the responses show `rows`, one for one and in order.
    pub open spec fn represent_all(
        out: Seq<RelationshipResponse>,
        rows: Seq<Relationship>,
    ) -> bool {
        out.len() == rows.len() && forall|i: int|
            0 <= i < out.len() ==> (#[trigger] out[i]).represents(rows[i])
    }

    /// Whether the responses list `of`: they show its rows in listing order,
    /// rows that may stand either way in the order in which they are stored.
    pub open spec fn list(out: Seq<RelationshipResponse>, of: Seq<Relationship>) -> bool {
        RelationshipResponse::represent_all(out, listed(of))
    }

    /// The response that shows `model`.
    pub fn from(model: Relationship) -> (r: RelationshipResponse)
        ensures
            r.represents(model),
    {
        let created_at = model.created_at.to_string();
        let updated_at = model.updated_at.to_string();
        RelationshipResponse {
            id: model.id,
            campaign_id: model.campaign_id,
            source_type: model.source_type,
            source_id: model.source_id,
            target_type: model.target_type,
            target_id: model.target_id,
            relationship_type: model.relationship_type,
            description: model.description,
            is_bidirectional: model.is_bidirectional,
            strength: model.strength,
            is_public: model.is_public,
            created_at,
            updated_at,
        }
    }

    /// The responses that show `rows`, one for one and in order.
    pub fn from_all(rows: Vec<Relationship>) -> (out: Vec<RelationshipResponse>)
        ensures
            RelationshipResponse::represent_all(out@, rows@),
    {
        let mut out: Vec<RelationshipResponse> = Vec::new();
        let mut i: usize = 0;
        while i < rows.len()
            invariant
                i <= rows.len(),
                out@.len() == i,
                forall|k: int| 0 <= k < i ==> (#[trigger] out@[k]).represents(rows@[k]),
            decreases rows.len() - i,
        {
            out.push(RelationshipResponse::from(rows[i].copy()));
            i += 1;
        }
        out
    }
}

/// The store with one more relationship.
pub open spec fn with_relationship(s: Snapshot, row: Relationship) -> Snapshot {
    Snapshot {
        relationships: s.relationships.push(row),
        ..s
    }
}

/// The store with the relationship at position `i` replaced by `row`.
pub open spec fn with_relationship_replaced(s: Snapshot, i: int, row: Relationship) -> Snapshot {
    Snapshot {
        relationships: s.relationships.update(i, row),
        ..s
    }
}

/// Why the store refuses to take `row`, if it does: the identifier is
/// taken, or a rule of the store would be broken.
pub open spec fn relationship_refusal(s: Snapshot, row: Relationship) -> Option<Seq<char>> {
    if has_key(s.relationships, row.key()) {
        Some(unique_text("relationships.id"@))
    } else if !has_key(s.campaigns, row.owner()) {
        Some(foreign_key_text())
    } else {
        None
    }
}

/// Storing a relationship that the store does not refuse keeps the rules of the
/// store.
pub proof fn lemma_with_relationship_wf(s: Snapshot, row: Relationship)
    requires
        s.wf(),
        relationship_refusal(s, row) is None,
    ensures
        with_relationship(s, row).wf(),
{
    lemma_push_keys(s.relationships, row);
}

/// Replacing a relationship by one of the same identity and campaign keeps the
/// rules of the store.
pub proof fn lemma_with_relationship_replaced_wf(s: Snapshot, i: int, row: Relationship)
    requires
        s.wf(),
        0 <= i < s.relationships.len(),
        row.key() == s.relationships[i].key(),
        row.owner() == s.relationships[i].owner(),
    ensures
        with_relationship_replaced(s, i, row).wf(),
{
    lemma_update_keys(s.relationships, i, row);
    let after = s.relationships.update(i, row);
    assert forall|k: int| 0 <= k < after.len() implies has_key(
        s.campaigns,
        #[trigger] after[k].owner(),
    ) by {
        assert(after[k].owner() == s.relationships[k].owner());
    }
}

/// The store without the relationship `id`.
pub open spec fn without_relationship(s: Snapshot, id: Seq<char>) -> Snapshot {
    Snapshot {
        relationships: without_key(s.relationships, id),
        ..s
    }
}

/// Removing a relationship keeps the rules of the store.
pub proof fn lemma_without_relationship_wf(s: Snapshot, id: Seq<char>)
    requires
        s.wf(),
    ensures
        without_relationship(s, id).wf(),
{
    lemma_filter_keys(s.relationships, has_other_key::<Relationship>(id));
    let fewer = without_key(s.relationships, id);
    assert forall|k: int| 0 <= k < fewer.len() implies has_key(
        s.campaigns,
        #[trigger] fewer[k].owner(),
    ) by {
        assert(s.relationships.contains(fewer[k]));
    }
}

/// Stores `row`, unless the store refuses it.
pub fn insert_relationship(db: &mut Database, row: Relationship) -> (r: Result<(), AppError>)
    requires
        old(db).wf(),
    ensures
        final(db).wf(),
        match r {
            Ok(()) => {
                &&& relationship_refusal(old(db)@, row) is None
                &&& final(db)@ == with_relationship(old(db)@, row)
            },
            Err(e) => {
                &&& e is Database
                &&& Some(e.detail()) == relationship_refusal(old(db)@, row)
                &&& final(db)@ == old(db)@
            },
        },
{
    if db.relationships.contains(&row.id) {
        return Err(AppError::unique("relationships.id"));
    }
    if !db.campaigns.contains(&row.campaign_id) {
        return Err(AppError::foreign_key());
    }
    proof {
        lemma_with_relationship_wf(db@, row);
    }
    db.relationships.insert(row);
    Ok(())
}

/// The relationship that the arguments of a creation describe, under the
/// identifier `id` and made at `now`: what is left out takes its default.
pub fn draft_relationship(
    id: String,
    now: Timestamp,
    campaign_id: String,
    source_type: String,
    source_id: String,
    target_type: String,
    target_id: String,
    relationship_type: String,
    description: Option<String>,
    is_bidirectional: Option<bool>,
    strength: Option<i32>,
) -> (row: Relationship)
    ensures
        row == Relationship::created(
            id,
            now,
            campaign_id,
            source_type,
            source_id,
            target_type,
            target_id,
            relationship_type,
            description,
            match is_bidirectional {
                        Some(b) => b,
                        None => false,
                    },
            strength,
        ),
{
    let both_ways = match is_bidirectional {
        Some(b) => b,
        None => false,
    };
    Relationship::new(
        id,
        now,
        campaign_id,
        source_type,
        source_id,
        target_type,
        target_id,
        relationship_type,
        description,
        both_ways,
        strength,
    )
}

/// Creates a relationship of the campaign `campaign_id` under a fresh
/// identifier: public, one-directional unless the caller says otherwise,
/// with the current time as the time of its making and of its last change.
/// Neither end is looked up: the entities need not exist.
pub fn create_relationship_impl(
    db: &mut Database,
    campaign_id: String,
    source_type: String,
    source_id: String,
    target_type: String,
    target_id: String,
    relationship_type: String,
    description: Option<String>,
    is_bidirectional: Option<bool>,
    strength: Option<i32>,
) -> (r: Result<RelationshipResponse, AppError>)
    requires
        old(db).wf(),
    ensures
        final(db).wf(),
        match r {
            Ok(response) => {
                &&& find(final(db)@.relationships, response.id@) matches Some(row)
                &&& row == Relationship::created(
                    row.id,
                    row.created_at,
                    campaign_id,
                    source_type,
                    source_id,
                    target_type,
                    target_id,
                    relationship_type,
                    description,
                    match is_bidirectional {
                        Some(b) => b,
                        None => false,
                    },
                    strength,
                )
                &&& is_random_uuid_text(row.id@)
                &&& row.created_at.is_clock_time()
                &&& relationship_refusal(old(db)@, row) is None
                &&& response.represents(row)
                &&& final(db)@ == with_relationship(old(db)@, row)
            },
            Err(e) => {
                &&& final(db)@ == old(db)@
                &&& e is Database
                &&& exists|row: Relationship|
                    {
                        &&& #[trigger] relationship_refusal(old(db)@, row) == Some(e.detail())
                        &&& row == Relationship::created(
                            row.id,
                            row.created_at,
                            campaign_id,
                            source_type,
                            source_id,
                            target_type,
                            target_id,
                            relationship_type,
                            description,
                            match is_bidirectional {
                                Some(b) => b,
                                None => false,
                            },
                            strength,
                        )
                    }
            },
        },
{
    let id = new_id();
    let now = Timestamp::now();
    let row = draft_relationship(
        id,
        now,
        campaign_id,
        source_type,
        source_id,
        target_type,
        target_id,
        relationship_type,
        description,
        is_bidirectional,
        strength,
    );
    let response = RelationshipResponse::from(row.copy());
    let ghost made = row;
    proof {
        lemma_push_keys(db@.relationships, row);
    }
    match insert_relationship(db, row) {
        Ok(()) => Ok(response),
        Err(e) => {
            assert(relationship_refusal(old(db)@, made) == Some(e.detail()));
            Err(e)
        },
    }
}

/// The relationship `id`.
pub fn get_relationship_impl(
    db: &Database,
    id: String,
) -> (r: Result<RelationshipResponse, AppError>)
    requires
        db.wf(),
    ensures
        match r {
            Ok(response) => find(db@.relationships, id@) matches Some(row) && response.represents(
                row,
            ),
            Err(e) => {
                &&& find(db@.relationships, id@) is None
                &&& e is NotFound
                &&& e.detail() == not_found_text("Relationship"@, id@)
            },
        },
{
    match db.relationships.get(&id) {
        Some(row) => Ok(RelationshipResponse::from(row)),
        None => Err(AppError::not_found("Relationship", id.as_str())),
    }
}

/// The relationships of the campaign `campaign_id`, the newest first.
pub fn list_relationships_impl(
    db: &Database,
    campaign_id: String,
) -> (r: Result<Vec<RelationshipResponse>, AppError>)
    requires
        db.wf(),
    ensures
        r matches Ok(out) && RelationshipResponse::list(
            out@,
            owned_by(db@.relationships, campaign_id@),
        ),
{
    let rows = sort_rows(db.relationships.owned(&campaign_id));
    Ok(RelationshipResponse::from_all(rows))
}

/// Applies `patch` to the relationship `id` at the time `now`.
pub fn change_relationship(
    db: &mut Database,
    id: &String,
    patch: RelationshipPatch,
    now: Timestamp,
) -> (r: Result<RelationshipResponse, AppError>)
    requires
        old(db).wf(),
    ensures
        final(db).wf(),
        match r {
            Ok(response) => {
                &&& find(old(db)@.relationships, id@) matches Some(before)
                &&& find(final(db)@.relationships, id@) == Some(before.patched(patch, now))
                &&& response.represents(before.patched(patch, now))
                &&& final(db)@ == with_relationship_replaced(
                    old(db)@,
                    index_of(old(db)@.relationships, id@),
                    before.patched(patch, now),
                )
            },
            Err(e) => {
                &&& final(db)@ == old(db)@
                &&& match find(old(db)@.relationships, id@) {
                    None => e is NotFound && e.detail() == not_found_text(
                        "Relationship"@,
                        id@,
                    ),
                    Some(_) => false,
                }
            },
        },
{
    match db.relationships.position(id) {
        None => Err(AppError::not_found("Relationship", id.as_str())),
        Some(i) => {
            let before = db.relationships.row(i).copy();
            proof {
                lemma_find_at(db@.relationships, i as int);
                before.lemma_patch_keeps_identity(patch, now);
            }
            let row = before.apply(patch, now);
            let response = RelationshipResponse::from(row.copy());
            proof {
                lemma_update_keys(db@.relationships, i as int, row);
                lemma_with_relationship_replaced_wf(db@, i as int, row);
            }
            db.relationships.replace(i, row);
            Ok(response)
        },
    }
}

/// Changes the relationship `id`: each argument that is given replaces the
/// stored value, what is left out stays, and the time of the last change
/// becomes the current time.
pub fn update_relationship_impl(
    db: &mut Database,
    id: String,
    relationship_type: Option<String>,
    description: Option<String>,
    is_bidirectional: Option<bool>,
    strength: Option<i32>,
    is_public: Option<bool>,
) -> (r: Result<RelationshipResponse, AppError>)
    requires
        old(db).wf(),
    ensures
        final(db).wf(),
        ({
            let patch = RelationshipPatch {
                relationship_type,
                description,
                is_bidirectional,
                strength,
                is_public,
            };
            match find(old(db)@.relationships, id@) {
                None => {
                    &&& final(db)@ == old(db)@
                    &&& r matches Err(e) && e is NotFound && e.detail() == not_found_text(
                        "Relationship"@,
                        id@,
                    )
                },
                Some(before) => {
                    &&& r matches Ok(response)
                    &&& find(final(db)@.relationships, id@) matches Some(after)
                    &&& after == before.patched(patch, after.updated_at)
                    &&& after.updated_at.is_clock_time()
                    &&& response.represents(after)
                    &&& final(db)@ == with_relationship_replaced(
                        old(db)@,
                        index_of(old(db)@.relationships, id@),
                        after,
                    )
                },
            }
        }),
{
    let patch = RelationshipPatch {
        relationship_type,
        description,
        is_bidirectional,
        strength,
        is_public,
    };
    let now = Timestamp::now();
    change_relationship(db, &id, patch, now)
}

/// Removes the relationship `id`; tells whether there was one.
pub fn delete_relationship_impl(db: &mut Database, id: String) -> (r: Result<bool, AppError>)
    requires
        old(db).wf(),
    ensures
        final(db).wf(),
        r matches Ok(deleted) && deleted == has_key(old(db)@.relationships, id@),
        final(db)@ == without_relationship(old(db)@, id@),
{
    proof {
        lemma_without_relationship_wf(db@, id@);
    }
    let deleted = db.relationships.remove_key(&id);
    Ok(deleted)
}

/// Whether a relationship starts or ends at the entity `entity_id` of kind
/// `entity_type`.
pub open spec fn touches(
    entity_type: Seq<char>,
    entity_id: Seq<char>,
) -> spec_fn(Relationship) -> bool {
    |r: Relationship|
        (r.source_type@ == entity_type && r.source_id@ == entity_id) || (r.target_type@
            == entity_type && r.target_id@ == entity_id)
}

/// The relationships that start or end at the entity `entity_id` of kind
/// `entity_type`, in the order in which they were stored.
pub fn get_entity_relationships_impl(db: &Database, entity_type: String, entity_id: String) -> (r:
    Result<Vec<RelationshipResponse>, AppError>)
    requires
        db.wf(),
    ensures
        r matches Ok(out) && RelationshipResponse::represent_all(
            out@,
            db@.relationships.filter(touches(entity_type@, entity_id@)),
        ),
{
    let all = db.relationships.all();
    let mut rows: Vec<Relationship> = Vec::new();
    let mut i: usize = 0;
    let ghost pred = touches(entity_type@, entity_id@);
    proof {
        reveal(Seq::filter);
        assert(all@.take(0) =~= Seq::<Relationship>::empty());
    }
    while i < all.len()
        invariant
            i <= all.len(),
            pred == touches(entity_type@, entity_id@),
            rows@ == all@.take(i as int).filter(pred),
        decreases all.len() - i,
    {
        proof {
            let before = all@.take(i as int);
            assert(all@.take(i + 1) == before.push(all@[i as int]));
            before.lemma_filter_push(all@[i as int], pred);
        }
        let row = &all[i];
        if (row.source_type == entity_type && row.source_id == entity_id) || (row.target_type
            == entity_type && row.target_id == entity_id) {
            rows.push(row.copy());
        }
        i += 1;
    }
    proof {
        assert(all@.take(all@.len() as int) == all@);
    }
    Ok(RelationshipResponse::from_all(rows))
}

} // verus!
