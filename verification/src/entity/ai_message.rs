//! One message of a conversation with the assistant.

use crate::clock::Timestamp;
use crate::table::Row;
use crate::text::copy_text;
use vstd::prelude::*;

verus! {

/// One message of a conversation with the assistant.
#[derive(Debug)]
pub struct AiMessage {
    pub id: String,
    pub conversation_id: String,
    pub role: String,
    pub content: String,
    pub tool_name: Option<String>,
    pub tool_input_json: Option<String>,
    pub tool_data_json: Option<String>,
    pub proposal_json: Option<String>,
    pub message_order: i32,
    pub created_at: Timestamp,
}

impl AiMessage {
    /// The message of a conversation as it is first stored: what the caller gave, and the
    /// defaults for the rest.
    pub open spec fn created(
        id: String,
        now: Timestamp,
        conversation_id: String,
        role: String,
        content: String,
        tool_name: Option<String>,
        tool_input_json: Option<String>,
        tool_data_json: Option<String>,
        proposal_json: Option<String>,
        message_order: i32,
    ) -> AiMessage {
        AiMessage {
            id,
            conversation_id,
            role,
            content,
            tool_name,
            tool_input_json,
            tool_data_json,
            proposal_json,
            message_order,
            created_at: now,
        }
    }

    /// Makes the message of a conversation as it is first stored.
    pub fn new(
        id: String,
        now: Timestamp,
        conversation_id: String,
        role: String,
        content: String,
        tool_name: Option<String>,
        tool_input_json: Option<String>,
        tool_data_json: Option<String>,
        proposal_json: Option<String>,
        message_order: i32,
    ) -> (row: AiMessage)
        ensures
            row == AiMessage::created(
                id,
                now,
                conversation_id,
                role,
                content,
                tool_name,
                tool_input_json,
                tool_data_json,
                proposal_json,
                message_order,
            ),
    {
        AiMessage {
            id,
            conversation_id,
            role,
            content,
            tool_name,
            tool_input_json,
            tool_data_json,
            proposal_json,
            message_order,
            created_at: now,
        }
    }
}

impl Row for AiMessage {
    open spec fn key(&self) -> Seq<char> {
        self.id@
    }

    open spec fn owner(&self) -> Seq<char> {
        self.conversation_id@
    }

    open spec fn before(&self, other: &Self) -> bool {
        self.message_order <= other.message_order
    }

    fn id(&self) -> (r: &String) {
        &self.id
    }

    fn owner_id(&self) -> (r: &String) {
        &self.conversation_id
    }

    fn comes_before(&self, other: &Self) -> (r: bool) {
        self.message_order <= other.message_order
    }

    fn copy(&self) -> (r: Self) {
        AiMessage {
            id: self.id.clone(),
            conversation_id: self.conversation_id.clone(),
            role: self.role.clone(),
            content: self.content.clone(),
            tool_name: copy_text(&self.tool_name),
            tool_input_json: copy_text(&self.tool_input_json),
            tool_data_json: copy_text(&self.tool_data_json),
            proposal_json: copy_text(&self.proposal_json),
            message_order: self.message_order,
            created_at: self.created_at,
        }
    }

    proof fn lemma_before_total(a: &Self, b: &Self) {
    }

    proof fn lemma_before_transitive(a: &Self, b: &Self, c: &Self) {
    }
}

} // verus!
