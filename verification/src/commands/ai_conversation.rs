//! The conversations with the assistant and their messages: one
//! conversation for each context of a campaign, made when it is first asked
//! for, with running totals of the tokens spent and the messages in the
//! order in which they were added.

use crate::clock::Timestamp;
use crate::db::{lemma_orders_kept, orders_counted, Database, Snapshot};
use crate::entity::ai_conversation::AiConversation;
use crate::entity::ai_message::AiMessage;
use crate::error::{foreign_key_text, not_found_text, unique_text, AppError};
use crate::ident::{is_random_uuid_text, new_id};
use crate::table::{
    find, has_key, index_of, is_not_owned_by, lemma_filter_keys, lemma_find_at, lemma_owned_push,
    lemma_push_keys, lemma_update_keys, listed, not_owned_by, owned_by, sort_rows, Row,
};
use vstd::prelude::*;
use vstd::string::*;

verus! {

/// An assistant conversation as it is handed to the caller.
#[derive(Debug)]
pub struct AiConversationResponse {
    pub id: String,
    pub campaign_id: String,
    pub context_type: String,
    pub total_input_tokens: i32,
    pub total_output_tokens: i32,
    pub total_cache_read_tokens: i32,
    pub total_cache_creation_tokens: i32,
    pub created_at: String,
    pub updated_at: String,
}

impl AiConversationResponse {
    /// Whether the response shows `row`: every field as stored, times and
    /// dates as their display texts.
    pub open spec fn represents(self, row: AiConversation) -> bool {
        &&& self.id == row.id
        &&& self.campaign_id == row.campaign_id
        &&& self.context_type == row.context_type
        &&& self.total_input_tokens == row.total_input_tokens
        &&& self.total_output_tokens == row.total_output_tokens
        &&& self.total_cache_read_tokens == row.total_cache_read_tokens
        &&& self.total_cache_creation_tokens == row.total_cache_creation_tokens
        &&& self.created_at@ == row.created_at.text()
        &&& self.updated_at@ == row.updated_at.text()
    }

    /// Whether the responses show `rows`, one for one and in order.
    pub open spec fn represent_all(
        out: Seq<AiConversationResponse>,
        rows: Seq<AiConversation>,
    ) -> bool {
        out.len() == rows.len() && forall|i: int|
            0 <= i < out.len() ==> (#[trigger] out[i]).represents(rows[i])
    }

    /// Whether the responses list `of`: they show its rows in listing order,
    /// rows that may stand either way in the order in which they are stored.
    pub open spec fn list(out: Seq<AiConversationResponse>, of: Seq<AiConversation>) -> bool {
        AiConversationResponse::represent_all(out, listed(of))
    }

    /// The response that shows `model`.
    pub fn from(model: AiConversation) -> (r: AiConversationResponse)
        ensures
            r.represents(model),
    {
        let created_at = model.created_at.to_string();
        let updated_at = model.updated_at.to_string();
        AiConversationResponse {
            id: model.id,
            campaign_id: model.campaign_id,
            context_type: model.context_type,
            total_input_tokens: model.total_input_tokens,
            total_output_tokens: model.total_output_tokens,
            total_cache_read_tokens: model.total_cache_read_tokens,
            total_cache_creation_tokens: model.total_cache_creation_tokens,
            created_at,
            updated_at,
        }
    }

    /// The responses that show `rows`, one for one and in order.
    pub fn from_all(rows: Vec<AiConversation>) -> (out: Vec<AiConversationResponse>)
        ensures
            AiConversationResponse::represent_all(out@, rows@),
    {
        let mut out: Vec<AiConversationResponse> = Vec::new();
        let mut i: usize = 0;
        while i < rows.len()
            invariant
                i <= rows.len(),
                out@.len() == i,
                forall|k: int| 0 <= k < i ==> (#[trigger] out@[k]).represents(rows@[k]),
            decreases rows.len() - i,
        {
            out.push(AiConversationResponse::from(rows[i].copy()));
            i += 1;
        }
        out
    }
}

/// The store with one more assistant conversation.
pub open spec fn with_ai_conversation(s: Snapshot, row: AiConversation) -> Snapshot {
    Snapshot {
        ai_conversations: s.ai_conversations.push(row),
        ..s
    }
}

/// Why the store refuses to take `row`, if it does: the identifier is
/// taken, or a rule of the store would be broken.
pub open spec fn ai_conversation_refusal(s: Snapshot, row: AiConversation) -> Option<Seq<char>> {
    if has_key(s.ai_conversations, row.key()) {
        Some(unique_text("ai_conversations.id"@))
    } else if context_taken(s.ai_conversations, row.campaign_id@, row.context_type@) {
        Some(unique_text("ai_conversations.campaign_id, ai_conversations.context_type"@))
    } else if !has_key(s.campaigns, row.owner()) {
        Some(foreign_key_text())
    } else {
        None
    }
}

/// Storing an assistant conversation that the store does not refuse keeps the rules of the
/// store.
pub proof fn lemma_with_ai_conversation_wf(s: Snapshot, row: AiConversation)
    requires
        s.wf(),
        ai_conversation_refusal(s, row) is None,
    ensures
        with_ai_conversation(s, row).wf(),
{
    lemma_push_keys(s.ai_conversations, row);
    let conversations = s.ai_conversations.push(row);
    assert forall|a: int, b: int|
        #![trigger conversations[a], conversations[b]]
        0 <= a < conversations.len() && 0 <= b < conversations.len() && a != b implies !(
        conversations[a].campaign_id@ == conversations[b].campaign_id@
            && conversations[a].context_type@ == conversations[b].context_type@) by {
        if a < s.ai_conversations.len() && b < s.ai_conversations.len() {
            assert(conversations[a] == s.ai_conversations[a] && conversations[b]
                == s.ai_conversations[b]);
        } else if a < s.ai_conversations.len() {
            assert(conversations[a] == s.ai_conversations[a]);
            assert(!is_in_context(s.ai_conversations[a], row.campaign_id@, row.context_type@));
        } else {
            assert(conversations[b] == s.ai_conversations[b]);
            assert(!is_in_context(s.ai_conversations[b], row.campaign_id@, row.context_type@));
        }
    }
}

/// The test that a conversation is that of the campaign `campaign` in the
/// context `context`.
pub open spec fn is_in_context(
    conversation: AiConversation,
    campaign: Seq<char>,
    context: Seq<char>,
) -> bool {
    conversation.campaign_id@ == campaign && conversation.context_type@ == context
}

/// Whether the campaign `campaign` has a conversation in the context
/// `context`.
pub open spec fn context_taken(
    conversations: Seq<AiConversation>,
    campaign: Seq<char>,
    context: Seq<char>,
) -> bool {
    exists|j: int|
        0 <= j < conversations.len() && is_in_context(
            #[trigger] conversations[j],
            campaign,
            context,
        )
}

/// The conversation of the campaign `campaign` in the context `context`,
/// where there is one.
pub open spec fn conversation_in(
    conversations: Seq<AiConversation>,
    campaign: Seq<char>,
    context: Seq<char>,
) -> Option<AiConversation> {
    if context_taken(conversations, campaign, context) {
        Some(
            conversations[choose|j: int|
                0 <= j < conversations.len() && is_in_context(
                    #[trigger] conversations[j],
                    campaign,
                    context,
                )],
        )
    } else {
        None
    }
}

/// The position of the conversation of the campaign `campaign` in the
/// context `context`.
fn find_context(db: &Database, campaign: &String, context: &String) -> (r: Option<usize>)
    requires
        db.wf(),
    ensures
        r is Some <==> context_taken(db@.ai_conversations, campaign@, context@),
        r matches Some(i) ==> i < db@.ai_conversations.len() && Some(db@.ai_conversations[i as int])
            == conversation_in(db@.ai_conversations, campaign@, context@),
{
    let mut j: usize = 0;
    while j < db.ai_conversations.len()
        invariant
            db.wf(),
            j <= db@.ai_conversations.len(),
            forall|k: int|
                0 <= k < j ==> !is_in_context(
                    #[trigger] db@.ai_conversations[k],
                    campaign@,
                    context@,
                ),
        decreases db@.ai_conversations.len() - j,
    {
        let row = db.ai_conversations.row(j);
        if row.campaign_id == *campaign && row.context_type == *context {
            proof {
                let rows = db@.ai_conversations;
                assert(is_in_context(rows[j as int], campaign@, context@));
                let c = choose|c: int|
                    0 <= c < rows.len() && is_in_context(#[trigger] rows[c], campaign@, context@);
                if c != j {
                    assert(!(rows[c].campaign_id@ == rows[j as int].campaign_id@
                        && rows[c].context_type@ == rows[j as int].context_type@));
                }
            }
            return Some(j);
        }
        j += 1;
    }
    None
}

/// Stores `row`, unless the store refuses it.
pub fn insert_ai_conversation(db: &mut Database, row: AiConversation) -> (r: Result<(), AppError>)
    requires
        old(db).wf(),
    ensures
        final(db).wf(),
        match r {
            Ok(()) => {
                &&& ai_conversation_refusal(old(db)@, row) is None
                &&& final(db)@ == with_ai_conversation(old(db)@, row)
            },
            Err(e) => {
                &&& e is Database
                &&& Some(e.detail()) == ai_conversation_refusal(old(db)@, row)
                &&& final(db)@ == old(db)@
            },
        },
{
    if db.ai_conversations.contains(&row.id) {
        return Err(AppError::unique("ai_conversations.id"));
    }
    if find_context(db, &row.campaign_id, &row.context_type).is_some() {
        return Err(AppError::unique("ai_conversations.campaign_id, ai_conversations.context_type"));
    }
    if !db.campaigns.contains(&row.campaign_id) {
        return Err(AppError::foreign_key());
    }
    proof {
        lemma_with_ai_conversation_wf(db@, row);
    }
    db.ai_conversations.insert(row);
    Ok(())
}

/// A message of a conversation as it is handed to the caller.
#[derive(Debug)]
pub struct AiMessageResponse {
    pub id: String,
    pub conversation_id: String,
    pub role: String,
    pub content: String,
    pub tool_name: Option<String>,
    pub tool_input_json: Option<String>,
    pub tool_data_json: Option<String>,
    pub proposal_json: Option<String>,
    pub message_order: i32,
    pub created_at: String,
}

impl AiMessageResponse {
    /// Whether the response shows `row`: every field as stored, times and
    /// dates as their display texts.
    pub open spec fn represents(self, row: AiMessage) -> bool {
        &&& self.id == row.id
        &&& self.conversation_id == row.conversation_id
        &&& self.role == row.role
        &&& self.content == row.content
        &&& self.tool_name == row.tool_name
        &&& self.tool_input_json == row.tool_input_json
        &&& self.tool_data_json == row.tool_data_json
        &&& self.proposal_json == row.proposal_json
        &&& self.message_order == row.message_order
        &&& self.created_at@ == row.created_at.text()
    }

    /// Whether the responses show `rows`, one for one and in order.
    pub open spec fn represent_all(out: Seq<AiMessageResponse>, rows: Seq<AiMessage>) -> bool {
        out.len() == rows.len() && forall|i: int|
            0 <= i < out.len() ==> (#[trigger] out[i]).represents(rows[i])
    }

    /// Whether the responses list `of`: they show its rows in listing order,
    /// rows that may stand either way in the order in which they are stored.
    pub open spec fn list(out: Seq<AiMessageResponse>, of: Seq<AiMessage>) -> bool {
        AiMessageResponse::represent_all(out, listed(of))
    }

    /// The response that shows `model`.
    pub fn from(model: AiMessage) -> (r: AiMessageResponse)
        ensures
            r.represents(model),
    {
        let created_at = model.created_at.to_string();
        AiMessageResponse {
            id: model.id,
            conversation_id: model.conversation_id,
            role: model.role,
            content: model.content,
            tool_name: model.tool_name,
            tool_input_json: model.tool_input_json,
            tool_data_json: model.tool_data_json,
            proposal_json: model.proposal_json,
            message_order: model.message_order,
            created_at,
        }
    }

    /// The responses that show `rows`, one for one and in order.
    pub fn from_all(rows: Vec<AiMessage>) -> (out: Vec<AiMessageResponse>)
        ensures
            AiMessageResponse::represent_all(out@, rows@),
    {
        let mut out: Vec<AiMessageResponse> = Vec::new();
        let mut i: usize = 0;
        while i < rows.len()
            invariant
                i <= rows.len(),
                out@.len() == i,
                forall|k: int| 0 <= k < i ==> (#[trigger] out@[k]).represents(rows@[k]),
            decreases rows.len() - i,
        {
            out.push(AiMessageResponse::from(rows[i].copy()));
            i += 1;
        }
        out
    }
}

/// The store with one more message of a conversation.
pub open spec fn with_ai_message(s: Snapshot, row: AiMessage) -> Snapshot {
    Snapshot {
        ai_messages: s.ai_messages.push(row),
        ..s
    }
}

/// Why the store refuses to take `row`, if it does: the identifier is
/// taken, or a rule of the store would be broken.
pub open spec fn ai_message_refusal(s: Snapshot, row: AiMessage) -> Option<Seq<char>> {
    if has_key(s.ai_messages, row.key()) {
        Some(unique_text("ai_messages.id"@))
    } else if !has_key(s.ai_conversations, row.owner()) {
        Some(foreign_key_text())
    } else {
        None
    }
}

/// Storing a message of a conversation that the store does not refuse keeps the rules of the
/// store.
pub proof fn lemma_with_ai_message_wf(s: Snapshot, row: AiMessage)
    requires
        s.wf(),
        ai_message_refusal(s, row) is None,
        row.message_order == owned_by(s.ai_messages, row.owner()).len() + 1,
    ensures
        with_ai_message(s, row).wf(),
{
    lemma_push_keys(s.ai_messages, row);
    let messages = s.ai_messages.push(row);
    assert forall|conversation: Seq<char>, k: int|
        0 <= k < owned_by(messages, conversation).len() implies (#[trigger] owned_by(
        messages,
        conversation,
    )[k]).message_order == k + 1 by {
        lemma_owned_push(s.ai_messages, row, conversation);
        if k < owned_by(s.ai_messages, conversation).len() {
            assert(owned_by(messages, conversation)[k] == owned_by(
                s.ai_messages,
                conversation,
            )[k]);
        }
    }
}

/// Stores `row`, unless the store refuses it.
fn insert_ai_message(db: &mut Database, row: AiMessage) -> (r: Result<(), AppError>)
    requires
        old(db).wf(),
        row.message_order == owned_by(old(db)@.ai_messages, row.owner()).len() + 1,
    ensures
        final(db).wf(),
        match r {
            Ok(()) => {
                &&& ai_message_refusal(old(db)@, row) is None
                &&& final(db)@ == with_ai_message(old(db)@, row)
            },
            Err(e) => {
                &&& e is Database
                &&& Some(e.detail()) == ai_message_refusal(old(db)@, row)
                &&& final(db)@ == old(db)@
            },
        },
{
    if db.ai_messages.contains(&row.id) {
        return Err(AppError::unique("ai_messages.id"));
    }
    if !db.ai_conversations.contains(&row.conversation_id) {
        return Err(AppError::foreign_key());
    }
    proof {
        lemma_with_ai_message_wf(db@, row);
    }
    db.ai_messages.insert(row);
    Ok(())
}

/// A conversation together with its messages.
#[derive(Debug)]
pub struct ConversationWithMessages {
    pub conversation: AiConversationResponse,
    pub messages: Vec<AiMessageResponse>,
}

/// The conversation of the campaign `campaign_id` in the context
/// `context_type`: the stored one where there is one, else a new one under a
/// fresh identifier with all totals at zero.
pub fn get_or_create_conversation_impl(
    db: &mut Database,
    campaign_id: String,
    context_type: String,
) -> (r: Result<AiConversationResponse, AppError>)
    requires
        old(db).wf(),
    ensures
        final(db).wf(),
        match conversation_in(old(db)@.ai_conversations, campaign_id@, context_type@) {
            Some(existing) => {
                &&& final(db)@ == old(db)@
                &&& r matches Ok(response) && response.represents(existing)
            },
            None => match r {
                Ok(response) => {
                    &&& find(final(db)@.ai_conversations, response.id@) matches Some(row)
                    &&& row == AiConversation::created(
                        row.id,
                        row.created_at,
                        campaign_id,
                        context_type,
                    )
                    &&& is_random_uuid_text(row.id@)
                    &&& row.created_at.is_clock_time()
                    &&& ai_conversation_refusal(old(db)@, row) is None
                    &&& response.represents(row)
                    &&& final(db)@ == with_ai_conversation(old(db)@, row)
                },
                Err(e) => {
                    &&& final(db)@ == old(db)@
                    &&& e is Database
                    &&& exists|row: AiConversation|
                        {
                            &&& #[trigger] ai_conversation_refusal(old(db)@, row) == Some(
                                e.detail(),
                            )
                            &&& row == AiConversation::created(
                                row.id,
                                row.created_at,
                                campaign_id,
                                context_type,
                            )
                        }
                },
            },
        },
{
    match find_context(db, &campaign_id, &context_type) {
        Some(i) => Ok(AiConversationResponse::from(db.ai_conversations.row(i).copy())),
        None => {
            let id = new_id();
            let now = Timestamp::now();
            let row = AiConversation::new(id, now, campaign_id, context_type);
            let response = AiConversationResponse::from(row.copy());
            let ghost made = row;
            proof {
                lemma_push_keys(db@.ai_conversations, row);
            }
            match insert_ai_conversation(db, row) {
                Ok(()) => Ok(response),
                Err(e) => {
                    assert(ai_conversation_refusal(old(db)@, made) == Some(e.detail()));
                    Err(e)
                },
            }
        },
    }
}

/// The conversation of the campaign `campaign_id` in the context
/// `context_type` with its messages in the order in which they were added,
/// or nothing where there is no such conversation.
pub fn load_conversation_impl(db: &Database, campaign_id: String, context_type: String) -> (r:
    Result<Option<ConversationWithMessages>, AppError>)
    requires
        db.wf(),
    ensures
        r matches Ok(loaded) && match conversation_in(
            db@.ai_conversations,
            campaign_id@,
            context_type@,
        ) {
            Some(stored) => {
                &&& loaded matches Some(l)
                &&& l.conversation.represents(stored)
                &&& AiMessageResponse::list(l.messages@, owned_by(db@.ai_messages, stored.key()))
            },
            None => loaded is None,
        },
{
    match find_context(db, &campaign_id, &context_type) {
        None => Ok(None),
        Some(i) => {
            let stored = db.ai_conversations.row(i).copy();
            let messages = AiMessageResponse::from_all(sort_rows(db.ai_messages.owned(&stored.id)));
            let conversation = AiConversationResponse::from(stored);
            Ok(Some(ConversationWithMessages { conversation, messages }))
        },
    }
}

/// The place that the next message of the conversation `conversation`
/// takes: one more than the number of its messages.
pub open spec fn next_order(messages: Seq<AiMessage>, conversation: Seq<char>) -> nat {
    owned_by(messages, conversation).len() + 1
}

/// The place of the message that comes after `count` messages, where it can
/// be written down.
pub fn place_after(count: usize) -> (place: Option<i32>)
    ensures
        place == if count + 1 <= i32::MAX {
            Some((count + 1) as i32)
        } else {
            None
        },
{
    if count >= 2147483647 {
        None
    } else {
        Some((count + 1) as i32)
    }
}

/// Adds a message to the conversation `conversation_id` under a fresh
/// identifier, at the place after its last message. The place is found by
/// counting: two writers at once could take the same place.
pub fn add_message_impl(
    db: &mut Database,
    conversation_id: String,
    role: String,
    content: String,
    tool_name: Option<String>,
    tool_input_json: Option<String>,
    tool_data_json: Option<String>,
    proposal_json: Option<String>,
) -> (r: Result<AiMessageResponse, AppError>)
    requires
        old(db).wf(),
    ensures
        final(db).wf(),
        match r {
            Ok(response) => {
                &&& find(final(db)@.ai_messages, response.id@) matches Some(row)
                &&& row == AiMessage::created(
                    row.id,
                    row.created_at,
                    conversation_id,
                    role,
                    content,
                    tool_name,
                    tool_input_json,
                    tool_data_json,
                    proposal_json,
                    row.message_order,
                )
                &&& row.message_order == next_order(old(db)@.ai_messages, conversation_id@)
                &&& is_random_uuid_text(row.id@)
                &&& row.created_at.is_clock_time()
                &&& ai_message_refusal(old(db)@, row) is None
                &&& response.represents(row)
                &&& final(db)@ == with_ai_message(old(db)@, row)
            },
            Err(e) => {
                &&& final(db)@ == old(db)@
                &&& if next_order(old(db)@.ai_messages, conversation_id@) > i32::MAX {
                    e is Internal
                } else {
                    e is Database && exists|row: AiMessage|
                        {
                            &&& #[trigger] ai_message_refusal(old(db)@, row) == Some(e.detail())
                            &&& row.conversation_id == conversation_id
                        }
                }
            },
        },
{
    let place = match place_after(db.ai_messages.owned(&conversation_id).len()) {
        Some(place) => place,
        None => {
            return Err(AppError::Internal(String::from_str("message order out of range")));
        },
    };
    let id = new_id();
    let now = Timestamp::now();
    let row = AiMessage::new(
        id,
        now,
        conversation_id,
        role,
        content,
        tool_name,
        tool_input_json,
        tool_data_json,
        proposal_json,
        place,
    );
    let response = AiMessageResponse::from(row.copy());
    let ghost made = row;
    proof {
        lemma_push_keys(db@.ai_messages, row);
    }
    match insert_ai_message(db, row) {
        Ok(()) => Ok(response),
        Err(e) => {
            assert(ai_message_refusal(old(db)@, made) == Some(e.detail()));
            Err(e)
        },
    }
}

/// Whether the totals of `conversation` can take the four counts on top.
pub open spec fn totals_fit(
    conversation: AiConversation,
    input: i32,
    output: i32,
    cache_read: i32,
    cache_creation: i32,
) -> bool {
    &&& i32::MIN <= conversation.total_input_tokens + input <= i32::MAX
    &&& i32::MIN <= conversation.total_output_tokens + output <= i32::MAX
    &&& i32::MIN <= conversation.total_cache_read_tokens + cache_read <= i32::MAX
    &&& i32::MIN <= conversation.total_cache_creation_tokens + cache_creation <= i32::MAX
}

/// The conversation with the four counts added to its totals, changed at
/// `now`.
pub open spec fn accumulated(
    conversation: AiConversation,
    input: i32,
    output: i32,
    cache_read: i32,
    cache_creation: i32,
    now: Timestamp,
) -> AiConversation {
    AiConversation {
        total_input_tokens: (conversation.total_input_tokens + input) as i32,
        total_output_tokens: (conversation.total_output_tokens + output) as i32,
        total_cache_read_tokens: (conversation.total_cache_read_tokens + cache_read) as i32,
        total_cache_creation_tokens: (conversation.total_cache_creation_tokens
            + cache_creation) as i32,
        updated_at: now,
        ..conversation
    }
}

/// The conversation with all totals at zero, changed at `now`.
pub open spec fn reset(conversation: AiConversation, now: Timestamp) -> AiConversation {
    AiConversation {
        total_input_tokens: 0,
        total_output_tokens: 0,
        total_cache_read_tokens: 0,
        total_cache_creation_tokens: 0,
        updated_at: now,
        ..conversation
    }
}

/// Adds the four counts to the totals of `conversation` at the time `now`,
/// where the totals can take them.
pub fn add_tokens(
    conversation: AiConversation,
    input_tokens: i32,
    output_tokens: i32,
    cache_read_tokens: i32,
    cache_creation_tokens: i32,
    now: Timestamp,
) -> (r: Option<AiConversation>)
    ensures
        r == if totals_fit(
            conversation,
            input_tokens,
            output_tokens,
            cache_read_tokens,
            cache_creation_tokens,
        ) {
            Some(
                accumulated(
                    conversation,
                    input_tokens,
                    output_tokens,
                    cache_read_tokens,
                    cache_creation_tokens,
                    now,
                ),
            )
        } else {
            None
        },
{
    let input = conversation.total_input_tokens.checked_add(input_tokens);
    let output = conversation.total_output_tokens.checked_add(output_tokens);
    let cache_read = conversation.total_cache_read_tokens.checked_add(cache_read_tokens);
    let cache_creation = conversation.total_cache_creation_tokens.checked_add(
        cache_creation_tokens,
    );
    match (input, output, cache_read, cache_creation) {
        (Some(a), Some(b), Some(c), Some(d)) => {
            let mut row = conversation;
            row.total_input_tokens = a;
            row.total_output_tokens = b;
            row.total_cache_read_tokens = c;
            row.total_cache_creation_tokens = d;
            row.updated_at = now;
            Some(row)
        },
        _ => None,
    }
}

/// Puts the totals of `conversation` back to zero at the time `now`.
pub fn reset_tokens(conversation: AiConversation, now: Timestamp) -> (row: AiConversation)
    ensures
        row == reset(conversation, now),
{
    let mut row = conversation;
    row.total_input_tokens = 0;
    row.total_output_tokens = 0;
    row.total_cache_read_tokens = 0;
    row.total_cache_creation_tokens = 0;
    row.updated_at = now;
    row
}

/// The store with the conversation at position `i` replaced by `row`.
pub open spec fn with_ai_conversation_replaced(
    s: Snapshot,
    i: int,
    row: AiConversation,
) -> Snapshot {
    Snapshot { ai_conversations: s.ai_conversations.update(i, row), ..s }
}

/// Replacing a conversation by one of the same identity, campaign and
/// context keeps the rules of the store.
pub proof fn lemma_with_ai_conversation_replaced_wf(s: Snapshot, i: int, row: AiConversation)
    requires
        s.wf(),
        0 <= i < s.ai_conversations.len(),
        row.key() == s.ai_conversations[i].key(),
        row.owner() == s.ai_conversations[i].owner(),
        row.context_type@ == s.ai_conversations[i].context_type@,
    ensures
        with_ai_conversation_replaced(s, i, row).wf(),
{
    lemma_update_keys(s.ai_conversations, i, row);
    let after = s.ai_conversations.update(i, row);
    assert forall|k: int| 0 <= k < after.len() implies has_key(
        s.campaigns,
        #[trigger] after[k].owner(),
    ) by {
        assert(after[k].owner() == s.ai_conversations[k].owner());
    }
    assert forall|a: int, b: int|
        #![trigger after[a], after[b]]
        0 <= a < after.len() && 0 <= b < after.len() && a != b implies !(after[a].campaign_id@
        == after[b].campaign_id@ && after[a].context_type@ == after[b].context_type@) by {
        assert(after[a].campaign_id@ == s.ai_conversations[a].campaign_id@);
        assert(after[b].campaign_id@ == s.ai_conversations[b].campaign_id@);
        assert(after[a].context_type@ == s.ai_conversations[a].context_type@);
        assert(after[b].context_type@ == s.ai_conversations[b].context_type@);
    }
}

/// Adds the four counts to the totals of the conversation `conversation_id`
/// at the time `now`.
pub fn add_token_counts(
    db: &mut Database,
    conversation_id: &String,
    input_tokens: i32,
    output_tokens: i32,
    cache_read_tokens: i32,
    cache_creation_tokens: i32,
    now: Timestamp,
) -> (r: Result<AiConversationResponse, AppError>)
    requires
        old(db).wf(),
    ensures
        final(db).wf(),
        match find(old(db)@.ai_conversations, conversation_id@) {
            None => {
                &&& final(db)@ == old(db)@
                &&& r matches Err(e) && e is NotFound && e.detail() == not_found_text(
                    "Conversation"@,
                    conversation_id@,
                )
            },
            Some(before) => if totals_fit(
                before,
                input_tokens,
                output_tokens,
                cache_read_tokens,
                cache_creation_tokens,
            ) {
                let after = accumulated(
                    before,
                    input_tokens,
                    output_tokens,
                    cache_read_tokens,
                    cache_creation_tokens,
                    now,
                );
                &&& r matches Ok(response) && response.represents(after)
                &&& find(final(db)@.ai_conversations, conversation_id@) == Some(after)
                &&& final(db)@ == with_ai_conversation_replaced(
                    old(db)@,
                    index_of(old(db)@.ai_conversations, conversation_id@),
                    after,
                )
            } else {
                &&& final(db)@ == old(db)@
                &&& r matches Err(e) && e is Internal
            },
        },
{
    match db.ai_conversations.position(conversation_id) {
        None => Err(AppError::not_found("Conversation", conversation_id.as_str())),
        Some(i) => {
            let before = db.ai_conversations.row(i).copy();
            proof {
                lemma_find_at(db@.ai_conversations, i as int);
            }
            match add_tokens(
                before,
                input_tokens,
                output_tokens,
                cache_read_tokens,
                cache_creation_tokens,
                now,
            ) {
                Some(row) => {
                    let response = AiConversationResponse::from(row.copy());
                    proof {
                        lemma_update_keys(db@.ai_conversations, i as int, row);
                        lemma_with_ai_conversation_replaced_wf(db@, i as int, row);
                    }
                    db.ai_conversations.replace(i, row);
                    Ok(response)
                },
                None => Err(AppError::Internal(String::from_str("token total out of range"))),
            }
        },
    }
}

/// Adds the four counts to the totals of the conversation
/// `conversation_id`; the time of its last change becomes the current time.
pub fn update_token_counts_impl(
    db: &mut Database,
    conversation_id: String,
    input_tokens: i32,
    output_tokens: i32,
    cache_read_tokens: i32,
    cache_creation_tokens: i32,
) -> (r: Result<AiConversationResponse, AppError>)
    requires
        old(db).wf(),
    ensures
        final(db).wf(),
        match find(old(db)@.ai_conversations, conversation_id@) {
            None => {
                &&& final(db)@ == old(db)@
                &&& r matches Err(e) && e is NotFound && e.detail() == not_found_text(
                    "Conversation"@,
                    conversation_id@,
                )
            },
            Some(before) => if totals_fit(
                before,
                input_tokens,
                output_tokens,
                cache_read_tokens,
                cache_creation_tokens,
            ) {
                &&& r matches Ok(response)
                &&& find(final(db)@.ai_conversations, conversation_id@) matches Some(after)
                &&& after == accumulated(
                    before,
                    input_tokens,
                    output_tokens,
                    cache_read_tokens,
                    cache_creation_tokens,
                    after.updated_at,
                )
                &&& after.updated_at.is_clock_time()
                &&& response.represents(after)
                &&& final(db)@ == with_ai_conversation_replaced(
                    old(db)@,
                    index_of(old(db)@.ai_conversations, conversation_id@),
                    after,
                )
            } else {
                &&& final(db)@ == old(db)@
                &&& r matches Err(e) && e is Internal
            },
        },
{
    let now = Timestamp::now();
    add_token_counts(
        db,
        &conversation_id,
        input_tokens,
        output_tokens,
        cache_read_tokens,
        cache_creation_tokens,
        now,
    )
}

/// The store after the conversation `id` was cleared at `now`: its messages
/// are gone and, where the conversation is stored, its totals are at zero.
pub open spec fn cleared(s: Snapshot, id: Seq<char>, now: Timestamp) -> Snapshot {
    Snapshot {
        ai_messages: not_owned_by(s.ai_messages, id),
        ai_conversations: if has_key(s.ai_conversations, id) {
            let i = index_of(s.ai_conversations, id);
            s.ai_conversations.update(i, reset(s.ai_conversations[i], now))
        } else {
            s.ai_conversations
        },
        ..s
    }
}

/// Clearing a conversation keeps the rules of the store.
pub proof fn lemma_cleared_wf(s: Snapshot, id: Seq<char>, now: Timestamp)
    requires
        s.wf(),
    ensures
        cleared(s, id, now).wf(),
{
    let messages = not_owned_by(s.ai_messages, id);
    lemma_filter_keys(s.ai_messages, is_not_owned_by::<AiMessage>(id));
    lemma_orders_kept(s.ai_messages, is_not_owned_by::<AiMessage>(id));
    assert forall|k: int| 0 <= k < messages.len() implies has_key(
        s.ai_conversations,
        #[trigger] messages[k].owner(),
    ) by {
        assert(s.ai_messages.contains(messages[k]));
    }
    let emptied = Snapshot { ai_messages: messages, ..s };
    assert(emptied.wf());
    if has_key(s.ai_conversations, id) {
        let i = index_of(s.ai_conversations, id);
        lemma_with_ai_conversation_replaced_wf(emptied, i, reset(s.ai_conversations[i], now));
        assert(cleared(s, id, now) == with_ai_conversation_replaced(
            emptied,
            i,
            reset(s.ai_conversations[i], now),
        ));
    } else {
        assert(cleared(s, id, now) == emptied);
    }
}

/// Clears the conversation `conversation_id` at the time `now`; tells
/// whether it had messages.
pub fn clear_conversation_at(db: &mut Database, conversation_id: &String, now: Timestamp) -> (r:
    Result<bool, AppError>)
    requires
        old(db).wf(),
    ensures
        final(db).wf(),
        r matches Ok(removed) && removed == (owned_by(old(db)@.ai_messages, conversation_id@).len()
            > 0),
        final(db)@ == cleared(old(db)@, conversation_id@, now),
{
    proof {
        lemma_cleared_wf(db@, conversation_id@, now);
    }
    let removed = db.ai_messages.owned(conversation_id).len() > 0;
    db.ai_messages.remove_owned(conversation_id);
    match db.ai_conversations.position(conversation_id) {
        None => {},
        Some(i) => {
            let row = reset_tokens(db.ai_conversations.row(i).copy(), now);
            db.ai_conversations.replace(i, row);
        },
    }
    Ok(removed)
}

/// Removes the messages of the conversation `conversation_id` and puts its
/// totals back to zero; the conversation itself stays. Tells whether it had
/// messages.
pub fn clear_conversation_impl(db: &mut Database, conversation_id: String) -> (r: Result<
    bool,
    AppError,
>)
    requires
        old(db).wf(),
    ensures
        final(db).wf(),
        r matches Ok(removed) && removed == (owned_by(old(db)@.ai_messages, conversation_id@).len()
            > 0),
        final(db)@.ai_messages == not_owned_by(old(db)@.ai_messages, conversation_id@),
        find(final(db)@.ai_conversations, conversation_id@) matches Some(after)
            ==> after.updated_at.is_clock_time(),
        final(db)@ == cleared(
            old(db)@,
            conversation_id@,
            match find(final(db)@.ai_conversations, conversation_id@) {
                Some(after) => after.updated_at,
                None => (Timestamp { seconds: 0, nanos: 0 }),
            },
        ),
{
    let now = Timestamp::now();
    proof {
        if has_key(db@.ai_conversations, conversation_id@) {
            let i = index_of(db@.ai_conversations, conversation_id@);
            lemma_update_keys(db@.ai_conversations, i, reset(db@.ai_conversations[i], now));
        }
    }
    clear_conversation_at(db, &conversation_id, now)
}

} // verus!
