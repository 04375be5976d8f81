//! The attachment of a tag to an entity.

use vstd::prelude::*;

verus! {

/// One attachment: the tag, and the entity named by its kind and identifier.
/// The three together identify the attachment.
#[derive(Debug)]
pub struct EntityTag {
    pub tag_id: String,
    pub entity_type: String,
    pub entity_id: String,
}

impl EntityTag {
    /// Whether the attachment is that of `tag` to the entity `entity_id` of
    /// kind `entity_type`.
    pub open spec fn joins(
        self,
        tag: Seq<char>,
        entity_type: Seq<char>,
        entity_id: Seq<char>,
    ) -> bool {
        self.tag_id@ == tag && self.entity_type@ == entity_type && self.entity_id@ == entity_id
    }

    /// Decides [`EntityTag::joins`].
    pub fn links(&self, tag: &String, entity_type: &String, entity_id: &String) -> (r: bool)
        ensures
            r == self.joins(tag@, entity_type@, entity_id@),
    {
        self.tag_id == *tag && self.entity_type == *entity_type && self.entity_id == *entity_id
    }

    /// A copy of the attachment.
    pub fn copy(&self) -> (r: EntityTag)
        ensures
            r == *self,
    {
        EntityTag {
            tag_id: self.tag_id.clone(),
            entity_type: self.entity_type.clone(),
            entity_id: self.entity_id.clone(),
        }
    }
}

} // verus!
