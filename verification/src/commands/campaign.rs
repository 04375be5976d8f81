//! Campaigns: storing, reading, listing, changing and removing them.

use crate::clock::Timestamp;
use crate::commands::tag::lemma_tag_names_filter;
use crate::db::{
    contexts_distinct, lemma_orders_kept, orders_counted, session_numbers_distinct, Database,
    Snapshot,
};
use crate::entity::ai_conversation::AiConversation;
use crate::entity::ai_message::AiMessage;
use crate::entity::campaign::{Campaign, CampaignPatch};
use crate::entity::session::Session;
use crate::entity::tag::Tag;
use crate::error::{not_found_text, unique_text, AppError};
use crate::ident::{is_random_uuid_text, new_id};
use crate::links::{
    attached, detach_locations, detached, lemma_attached, lemma_detached, lemma_detached_mirrored,
    lemma_detached_owned, lemma_released, lemma_released_mirrored, lemma_released_owned,
    release_heroes, released, retain_attached,
};
use crate::search_index::{is_within, lemma_index_filter, lemma_mirror_cascade, within};
use crate::table::{
    find, has_key, has_other_key, has_owner_in, index_of, keys_distinct, lemma_filter_keys,
    lemma_find_at, lemma_push_keys, lemma_surviving_owned, lemma_update_keys, listed, owners_exist,
    sort_rows, surviving, without_key, Row,
};
use vstd::prelude::*;

verus! {

/// A campaign as it is handed to the caller.
#[derive(Debug)]
pub struct CampaignResponse {
    pub id: String,
    pub name: String,
    pub description: Option<String>,
    pub system: Option<String>,
    pub settings_json: Option<String>,
    pub created_at: String,
    pub updated_at: String,
}

impl CampaignResponse {
    /// Whether the response shows `row`: every field as stored, times and
    /// dates as their display texts.
    pub open spec fn represents(self, row: Campaign) -> bool {
        &&& self.id == row.id
        &&& self.name == row.name
        &&& self.description == row.description
        &&& self.system == row.system
        &&& self.settings_json == row.settings_json
        &&& self.created_at@ == row.created_at.text()
        &&& self.updated_at@ == row.updated_at.text()
    }

    /// Whether the responses show `rows`, one for one and in order.
    pub open spec fn represent_all(out: Seq<CampaignResponse>, rows: Seq<Campaign>) -> bool {
        out.len() == rows.len() && forall|i: int|
            0 <= i < out.len() ==> (#[trigger] out[i]).represents(rows[i])
    }

    /// Whether the responses list `of`: they show its rows in listing order,
    /// rows that may stand either way in the order in which they are stored.
    pub open spec fn list(out: Seq<CampaignResponse>, of: Seq<Campaign>) -> bool {
        CampaignResponse::represent_all(out, listed(of))
    }

    /// The response that shows `model`.
    pub fn from(model: Campaign) -> (r: CampaignResponse)
        ensures
            r.represents(model),
    {
        let created_at = model.created_at.to_string();
        let updated_at = model.updated_at.to_string();
        CampaignResponse {
            id: model.id,
            name: model.name,
            description: model.description,
            system: model.system,
            settings_json: model.settings_json,
            created_at,
            updated_at,
        }
    }

    /// The responses that show `rows`, one for one and in order.
    pub fn from_all(rows: Vec<Campaign>) -> (out: Vec<CampaignResponse>)
        ensures
            CampaignResponse::represent_all(out@, rows@),
    {
        let mut out: Vec<CampaignResponse> = Vec::new();
        let mut i: usize = 0;
        while i < rows.len()
            invariant
                i <= rows.len(),
                out@.len() == i,
                forall|k: int| 0 <= k < i ==> (#[trigger] out@[k]).represents(rows@[k]),
            decreases rows.len() - i,
        {
            out.push(CampaignResponse::from(rows[i].copy()));
            i += 1;
        }
        out
    }
}

/// The store with one more campaign.
pub open spec fn with_campaign(s: Snapshot, row: Campaign) -> Snapshot {
    Snapshot {
        campaigns: s.campaigns.push(row),
        ..s
    }
}

/// The store with the campaign at position `i` replaced by `row`.
pub open spec fn with_campaign_replaced(s: Snapshot, i: int, row: Campaign) -> Snapshot {
    Snapshot {
        campaigns: s.campaigns.update(i, row),
        ..s
    }
}

/// Why the store refuses to take `row`, if it does: the identifier is
/// taken, or a rule of the store would be broken.
pub open spec fn campaign_refusal(s: Snapshot, row: Campaign) -> Option<Seq<char>> {
    if has_key(s.campaigns, row.key()) {
        Some(unique_text("campaigns.id"@))
    } else {
        None
    }
}

/// Storing a campaign that the store does not refuse keeps the rules of the
/// store.
pub proof fn lemma_with_campaign_wf(s: Snapshot, row: Campaign)
    requires
        s.wf(),
        campaign_refusal(s, row) is None,
    ensures
        with_campaign(s, row).wf(),
{
    lemma_push_keys(s.campaigns, row);
}

/// Replacing a campaign by one of the same identity keeps the
/// rules of the store.
pub proof fn lemma_with_campaign_replaced_wf(s: Snapshot, i: int, row: Campaign)
    requires
        s.wf(),
        0 <= i < s.campaigns.len(),
        row.key() == s.campaigns[i].key(),
    ensures
        with_campaign_replaced(s, i, row).wf(),
{
    lemma_update_keys(s.campaigns, i, row);
}

/// The store without the campaign `id`: the campaign is gone, and with it
/// every row that belonged to it, the attachments of its tags, the messages
/// of its conversations and the index entries of its rows. A location or a
/// hero of another campaign that pointed at a row of this one is without
/// parent or player.
pub open spec fn without_campaign(s: Snapshot, id: Seq<char>) -> Snapshot {
    let campaigns = without_key(s.campaigns, id);
    let players = surviving(s.players, campaigns);
    let tags = surviving(s.tags, campaigns);
    let conversations = surviving(s.ai_conversations, campaigns);
    Snapshot {
        campaigns,
        players,
        locations: detached(surviving(s.locations, campaigns)),
        characters: surviving(s.characters, campaigns),
        organizations: surviving(s.organizations, campaigns),
        quests: surviving(s.quests, campaigns),
        heroes: released(surviving(s.heroes, campaigns), players),
        sessions: surviving(s.sessions, campaigns),
        timeline_events: surviving(s.timeline_events, campaigns),
        secrets: surviving(s.secrets, campaigns),
        relationships: surviving(s.relationships, campaigns),
        tags,
        entity_tags: attached(s.entity_tags, tags),
        ai_conversations: conversations,
        ai_messages: surviving(s.ai_messages, conversations),
        search_index: within(s.search_index, campaigns),
    }
}

/// What is left of a table when owners are removed: rows with distinct keys
/// that all have an owner.
proof fn lemma_survivors<R: Row, P: Row>(rows: Seq<R>, owners: Seq<P>)
    requires
        keys_distinct(rows),
    ensures
        keys_distinct(surviving(rows, owners)),
        owners_exist(surviving(rows, owners), owners),
{
    lemma_filter_keys(rows, has_owner_in::<R, P>(owners));
    lemma_surviving_owned(rows, owners);
}

/// A filter leaves no two sessions of one campaign with the same number.
proof fn lemma_session_numbers_filter(sessions: Seq<Session>, pred: spec_fn(Session) -> bool)
    requires
        keys_distinct(sessions),
        session_numbers_distinct(sessions),
    ensures
        session_numbers_distinct(sessions.filter(pred)),
{
    let fewer = sessions.filter(pred);
    lemma_filter_keys(sessions, pred);
    assert forall|a: int, b: int|
        #![trigger fewer[a], fewer[b]]
        0 <= a < fewer.len() && 0 <= b < fewer.len() && a != b implies !(fewer[a].campaign_id@
        == fewer[b].campaign_id@ && fewer[a].session_number == fewer[b].session_number) by {
        assert(sessions.contains(fewer[a]) && sessions.contains(fewer[b]));
        let p = choose|p: int| 0 <= p < sessions.len() && sessions[p] == fewer[a];
        let q = choose|q: int| 0 <= q < sessions.len() && sessions[q] == fewer[b];
        assert(fewer[a].key() != fewer[b].key());
        assert(sessions[p] == fewer[a] && sessions[q] == fewer[b]);
    }
}

/// A filter leaves no two conversations of one campaign in the same context.
proof fn lemma_contexts_filter(
    conversations: Seq<AiConversation>,
    pred: spec_fn(AiConversation) -> bool,
)
    requires
        keys_distinct(conversations),
        contexts_distinct(conversations),
    ensures
        contexts_distinct(conversations.filter(pred)),
{
    let fewer = conversations.filter(pred);
    lemma_filter_keys(conversations, pred);
    assert forall|a: int, b: int|
        #![trigger fewer[a], fewer[b]]
        0 <= a < fewer.len() && 0 <= b < fewer.len() && a != b implies !(fewer[a].campaign_id@
        == fewer[b].campaign_id@ && fewer[a].context_type@ == fewer[b].context_type@) by {
        assert(conversations.contains(fewer[a]) && conversations.contains(fewer[b]));
        let p = choose|p: int| 0 <= p < conversations.len() && conversations[p] == fewer[a];
        let q = choose|q: int| 0 <= q < conversations.len() && conversations[q] == fewer[b];
        assert(fewer[a].key() != fewer[b].key());
        assert(conversations[p] == fewer[a] && conversations[q] == fewer[b]);
    }
}

/// Removing a campaign keeps the identity and ownership rules of the store.
proof fn lemma_without_campaign_keys(s: Snapshot, id: Seq<char>)
    requires
        s.wf(),
    ensures
        without_campaign(s, id).keys_ok(),
        without_campaign(s, id).owners_ok(),
{
    let campaigns = without_key(s.campaigns, id);
    lemma_filter_keys(s.campaigns, has_other_key::<Campaign>(id));
    lemma_survivors(s.players, campaigns);
    lemma_survivors(s.locations, campaigns);
    lemma_survivors(s.characters, campaigns);
    lemma_survivors(s.organizations, campaigns);
    lemma_survivors(s.quests, campaigns);
    lemma_survivors(s.heroes, campaigns);
    lemma_survivors(s.sessions, campaigns);
    lemma_survivors(s.timeline_events, campaigns);
    lemma_survivors(s.secrets, campaigns);
    lemma_survivors(s.relationships, campaigns);
    lemma_survivors(s.tags, campaigns);
    lemma_survivors(s.ai_conversations, campaigns);
    lemma_survivors(s.ai_messages, surviving(s.ai_conversations, campaigns));
    lemma_detached(surviving(s.locations, campaigns));
    lemma_detached_owned(surviving(s.locations, campaigns), campaigns);
    lemma_released(surviving(s.heroes, campaigns), surviving(s.players, campaigns));
    lemma_released_owned(
        surviving(s.heroes, campaigns),
        surviving(s.players, campaigns),
        campaigns,
    );
}

/// Removing a campaign keeps the reference and uniqueness rules of the
/// store, and the numbering of the messages.
proof fn lemma_without_campaign_links(s: Snapshot, id: Seq<char>)
    requires
        s.wf(),
    ensures
        without_campaign(s, id).links_ok(),
        without_campaign(s, id).uniques_ok(),
        orders_counted(without_campaign(s, id).ai_messages),
{
    lemma_orders_kept(
        s.ai_messages,
        has_owner_in::<AiMessage, AiConversation>(
            surviving(s.ai_conversations, without_key(s.campaigns, id)),
        ),
    );
    let campaigns = without_key(s.campaigns, id);
    lemma_detached(surviving(s.locations, campaigns));
    lemma_released(surviving(s.heroes, campaigns), surviving(s.players, campaigns));
    lemma_attached(s.entity_tags, surviving(s.tags, campaigns));
    lemma_tag_names_filter(s.tags, has_owner_in::<Tag, Campaign>(campaigns));
    lemma_session_numbers_filter(s.sessions, has_owner_in::<Session, Campaign>(campaigns));
    lemma_contexts_filter(s.ai_conversations, has_owner_in::<AiConversation, Campaign>(campaigns));
}

/// Removing a campaign keeps the index in step with the searchable tables.
proof fn lemma_without_campaign_index(s: Snapshot, id: Seq<char>)
    requires
        s.wf(),
    ensures
        without_campaign(s, id).index_ok(),
{
    let campaigns = without_key(s.campaigns, id);
    let index = within(s.search_index, campaigns);
    lemma_index_filter(s.search_index, is_within(campaigns));
    lemma_mirror_cascade(s.search_index, s.characters, campaigns);
    lemma_mirror_cascade(s.search_index, s.locations, campaigns);
    lemma_mirror_cascade(s.search_index, s.organizations, campaigns);
    lemma_mirror_cascade(s.search_index, s.quests, campaigns);
    lemma_mirror_cascade(s.search_index, s.heroes, campaigns);
    lemma_mirror_cascade(s.search_index, s.sessions, campaigns);
    lemma_detached_mirrored(index, surviving(s.locations, campaigns));
    lemma_released_mirrored(
        index,
        surviving(s.heroes, campaigns),
        surviving(s.players, campaigns),
    );
}

/// Removing a campaign keeps the rules of the store.
pub proof fn lemma_without_campaign_wf(s: Snapshot, id: Seq<char>)
    requires
        s.wf(),
    ensures
        without_campaign(s, id).wf(),
{
    lemma_without_campaign_keys(s, id);
    lemma_without_campaign_links(s, id);
    lemma_without_campaign_index(s, id);
}

/// Stores `row`, unless the store refuses it.
pub fn insert_campaign(db: &mut Database, row: Campaign) -> (r: Result<(), AppError>)
    requires
        old(db).wf(),
    ensures
        final(db).wf(),
        match r {
            Ok(()) => {
                &&& campaign_refusal(old(db)@, row) is None
                &&& final(db)@ == with_campaign(old(db)@, row)
            },
            Err(e) => {
                &&& e is Database
                &&& Some(e.detail()) == campaign_refusal(old(db)@, row)
                &&& final(db)@ == old(db)@
            },
        },
{
    if db.campaigns.contains(&row.id) {
        return Err(AppError::unique("campaigns.id"));
    }
    proof {
        lemma_with_campaign_wf(db@, row);
    }
    db.campaigns.insert(row);
    Ok(())
}

/// Creates a campaign under a fresh identifier, without settings, with the
/// current time as the time of its making and of its last change.
pub fn create_campaign_impl(
    db: &mut Database,
    name: String,
    description: Option<String>,
    system: Option<String>,
) -> (r: Result<CampaignResponse, AppError>)
    requires
        old(db).wf(),
    ensures
        final(db).wf(),
        match r {
            Ok(response) => {
                &&& find(final(db)@.campaigns, response.id@) matches Some(row)
                &&& row == Campaign::created(row.id, row.created_at, name, description, system)
                &&& is_random_uuid_text(row.id@)
                &&& row.created_at.is_clock_time()
                &&& campaign_refusal(old(db)@, row) is None
                &&& response.represents(row)
                &&& final(db)@ == with_campaign(old(db)@, row)
            },
            Err(e) => {
                &&& final(db)@ == old(db)@
                &&& e is Database
                &&& exists|row: Campaign|
                    {
                        &&& #[trigger] campaign_refusal(old(db)@, row) == Some(e.detail())
                        &&& row == Campaign::created(
                            row.id,
                            row.created_at,
                            name,
                            description,
                            system,
                        )
                    }
            },
        },
{
    let id = new_id();
    let now = Timestamp::now();
    let row = Campaign::new(id, now, name, description, system);
    let response = CampaignResponse::from(row.copy());
    let ghost made = row;
    proof {
        lemma_push_keys(db@.campaigns, row);
    }
    match insert_campaign(db, row) {
        Ok(()) => Ok(response),
        Err(e) => {
            assert(campaign_refusal(old(db)@, made) == Some(e.detail()));
            Err(e)
        },
    }
}

/// The campaign `id`.
pub fn get_campaign_impl(db: &Database, id: String) -> (r: Result<CampaignResponse, AppError>)
    requires
        db.wf(),
    ensures
        match r {
            Ok(response) => find(db@.campaigns, id@) matches Some(row) && response.represents(row),
            Err(e) => {
                &&& find(db@.campaigns, id@) is None
                &&& e is NotFound
                &&& e.detail() == not_found_text("Campaign"@, id@)
            },
        },
{
    match db.campaigns.get(&id) {
        Some(row) => Ok(CampaignResponse::from(row)),
        None => Err(AppError::not_found("Campaign", id.as_str())),
    }
}

/// All campaigns, the one changed last coming first.
pub fn list_campaigns_impl(db: &Database) -> (r: Result<Vec<CampaignResponse>, AppError>)
    requires
        db.wf(),
    ensures
        r matches Ok(out) && CampaignResponse::list(out@, db@.campaigns),
{
    let rows = sort_rows(db.campaigns.all());
    Ok(CampaignResponse::from_all(rows))
}

/// Applies `patch` to the campaign `id` at the time `now`.
pub fn change_campaign(
    db: &mut Database,
    id: &String,
    patch: CampaignPatch,
    now: Timestamp,
) -> (r: Result<CampaignResponse, AppError>)
    requires
        old(db).wf(),
    ensures
        final(db).wf(),
        match r {
            Ok(response) => {
                &&& find(old(db)@.campaigns, id@) matches Some(before)
                &&& find(final(db)@.campaigns, id@) == Some(before.patched(patch, now))
                &&& response.represents(before.patched(patch, now))
                &&& final(db)@ == with_campaign_replaced(
                    old(db)@,
                    index_of(old(db)@.campaigns, id@),
                    before.patched(patch, now),
                )
            },
            Err(e) => {
                &&& final(db)@ == old(db)@
                &&& match find(old(db)@.campaigns, id@) {
                    None => e is NotFound && e.detail() == not_found_text(
                        "Campaign"@,
                        id@,
                    ),
                    Some(_) => false,
                }
            },
        },
{
    match db.campaigns.position(id) {
        None => Err(AppError::not_found("Campaign", id.as_str())),
        Some(i) => {
            let before = db.campaigns.row(i).copy();
            proof {
                lemma_find_at(db@.campaigns, i as int);
                before.lemma_patch_keeps_identity(patch, now);
            }
            let row = before.apply(patch, now);
            let response = CampaignResponse::from(row.copy());
            proof {
                lemma_update_keys(db@.campaigns, i as int, row);
                lemma_with_campaign_replaced_wf(db@, i as int, row);
            }
            db.campaigns.replace(i, row);
            Ok(response)
        },
    }
}

/// Changes the campaign `id`: each argument that is given replaces the
/// stored value, what is left out stays, and the time of the last change
/// becomes the current time.
pub fn update_campaign_impl(
    db: &mut Database,
    id: String,
    name: Option<String>,
    description: Option<String>,
    system: Option<String>,
    settings_json: Option<String>,
) -> (r: Result<CampaignResponse, AppError>)
    requires
        old(db).wf(),
    ensures
        final(db).wf(),
        ({
            let patch = CampaignPatch { name, description, system, settings_json };
            match find(old(db)@.campaigns, id@) {
                None => {
                    &&& final(db)@ == old(db)@
                    &&& r matches Err(e) && e is NotFound && e.detail() == not_found_text(
                        "Campaign"@,
                        id@,
                    )
                },
                Some(before) => {
                    &&& r matches Ok(response)
                    &&& find(final(db)@.campaigns, id@) matches Some(after)
                    &&& after == before.patched(patch, after.updated_at)
                    &&& after.updated_at.is_clock_time()
                    &&& response.represents(after)
                    &&& final(db)@ == with_campaign_replaced(
                        old(db)@,
                        index_of(old(db)@.campaigns, id@),
                        after,
                    )
                },
            }
        }),
{
    let patch = CampaignPatch { name, description, system, settings_json };
    let now = Timestamp::now();
    change_campaign(db, &id, patch, now)
}

/// Removes the campaign `id` and everything that belongs to it; tells
/// whether there was such a campaign.
pub fn delete_campaign_impl(db: &mut Database, id: String) -> (r: Result<bool, AppError>)
    requires
        old(db).wf(),
    ensures
        final(db).wf(),
        r matches Ok(deleted) && deleted == has_key(old(db)@.campaigns, id@),
        final(db)@ == without_campaign(old(db)@, id@),
{
    proof {
        lemma_without_campaign_wf(db@, id@);
    }
    let deleted = db.campaigns.remove_key(&id);
    db.players.retain_owned(&db.campaigns);
    db.locations.retain_owned(&db.campaigns);
    db.characters.retain_owned(&db.campaigns);
    db.organizations.retain_owned(&db.campaigns);
    db.quests.retain_owned(&db.campaigns);
    db.heroes.retain_owned(&db.campaigns);
    db.sessions.retain_owned(&db.campaigns);
    db.timeline_events.retain_owned(&db.campaigns);
    db.secrets.retain_owned(&db.campaigns);
    db.relationships.retain_owned(&db.campaigns);
    db.tags.retain_owned(&db.campaigns);
    db.ai_conversations.retain_owned(&db.campaigns);
    db.ai_messages.retain_owned(&db.ai_conversations);
    detach_locations(&mut db.locations);
    release_heroes(&mut db.heroes, &db.players);
    retain_attached(&mut db.entity_tags, &db.tags);
    db.search_index.retain_within(&db.campaigns);
    Ok(deleted)
}

} // verus!
