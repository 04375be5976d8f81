//! What holds of the store whatever is stored in it: campaigns are isolated
//! from each other, removing a campaign removes what belongs to it, removing
//! a location, a player or a tag leaves what pointed at it in a defined
//! state, and the index follows the rows.

use crate::clock::Timestamp;
use crate::commands::ai_conversation::{accumulated, next_order, totals_fit};
use crate::commands::campaign::without_campaign;
use crate::commands::location::without_location;
use crate::commands::player::without_player;
use crate::commands::tag::{is_attached, without_tag};
use crate::db::Snapshot;
use crate::entity::ai_conversation::AiConversation;
use crate::entity::ai_message::AiMessage;
use crate::entity::campaign::Campaign;
use crate::entity::location::Location;
use crate::links::{
    attached, detached, has_tag_in, lemma_attachments_filter, lemma_detached, lemma_filter_all,
    lemma_released, orphan, released, unassigned,
};
use crate::search_index::{
    entries_distinct, entry_of, is_entry_for, is_within, lemma_index_filter, mirrors, projection,
    within, IndexEntryView, Indexed,
};
use crate::table::{
    find, has_key, has_other_key, has_owner_in, index_of, is_listing, is_owned_by, keys_distinct,
    lemma_filter_keys, lemma_filter_members, lemma_find_at, lemma_listed, lemma_listed_of_ordered,
    lemma_push_keys, listed, owned_by, owners_exist, surviving, without_key, Row,
};
use vstd::prelude::*;
use vstd::seq_lib::*;

verus! {

/// A listing holds exactly the rows of what it lists.
pub proof fn lemma_listing_contains<R: Row>(out: Seq<R>, of: Seq<R>, row: R)
    requires
        is_listing(out, of),
    ensures
        out.contains(row) <==> of.contains(row),
        out.len() == of.len(),
{
    to_multiset_contains(out, row);
    to_multiset_contains(of, row);
    to_multiset_len(out);
    to_multiset_len(of);
}

/// Campaign isolation: a stored row is listed for the campaign it belongs
/// to and for no other campaign.
pub proof fn law_listing_is_scoped<R: Row>(rows: Seq<R>, i: int, campaign: Seq<char>)
    requires
        0 <= i < rows.len(),
    ensures
        listed(owned_by(rows, campaign)).contains(rows[i]) <==> rows[i].owner() == campaign,
{
    lemma_listed(owned_by(rows, campaign));
    lemma_listing_contains(listed(owned_by(rows, campaign)), owned_by(rows, campaign), rows[i]);
    lemma_filter_members(rows, is_owned_by::<R>(campaign));
    assert(rows.contains(rows[i]));
}

/// Campaign isolation at the moment of storing: the new row is listed for
/// its campaign, and the listing of every other campaign is what it was.
pub proof fn law_stored_row_is_listed<R: Row>(rows: Seq<R>, row: R, other: Seq<char>)
    requires
        other != row.owner(),
    ensures
        listed(owned_by(rows.push(row), row.owner())).contains(row),
        listed(owned_by(rows.push(row), other)) == listed(owned_by(rows, other)),
{
    let more = rows.push(row);
    assert(more[more.len() - 1] == row);
    law_listing_is_scoped(more, more.len() - 1, row.owner());
    rows.lemma_filter_push(row, is_owned_by::<R>(other));
}

/// Removing an owner removes the rows it owns and no others: afterwards a
/// row is found exactly where its owner is still stored, and then it is the
/// row that was stored.
pub proof fn law_cascade<R: Row, P: Row>(rows: Seq<R>, owners: Seq<P>, id: Seq<char>, i: int)
    requires
        keys_distinct(rows),
        keys_distinct(owners),
        owners_exist(rows, owners),
        0 <= i < rows.len(),
    ensures
        rows[i].owner() == id ==> find(surviving(rows, without_key(owners, id)), rows[i].key())
            is None,
        rows[i].owner() != id ==> find(surviving(rows, without_key(owners, id)), rows[i].key())
            == Some(rows[i]),
{
    let left = without_key(owners, id);
    lemma_filter_keys(owners, has_other_key::<P>(id));
    lemma_filter_keys(rows, has_owner_in::<R, P>(left));
    lemma_find_at(rows, i);
    let o = rows[i].owner();
    assert(has_key(owners, o));
    let p = index_of(owners, o);
    lemma_find_at(owners, p);
    if o == id {
        assert(!has_key(left, o));
        assert(!has_owner_in::<R, P>(left)(rows[i]));
    } else {
        assert(has_other_key::<P>(id)(owners[p]));
        assert(has_key(left, owners[p].key()));
        assert(has_owner_in::<R, P>(left)(rows[i]));
    }
}

/// Removing a campaign makes every row of it unfindable, in every table; a
/// row of another campaign is found as before, but for a parent location or
/// a player that went with the campaign.
pub proof fn law_campaign_delete_cascades(s: Snapshot, id: Seq<char>)
    requires
        s.wf(),
    ensures
        ({
            let after = without_campaign(s, id);
            &&& !has_key(after.campaigns, id)
            &&& forall|i: int|
                0 <= i < s.players.len() ==> (#[trigger] has_key(after.players, s.players[i].key())
                    <==> s.players[i].owner() != id)
            &&& forall|i: int|
                0 <= i < s.locations.len() ==> (#[trigger] has_key(
                    after.locations,
                    s.locations[i].key(),
                ) <==> s.locations[i].owner() != id)
            &&& forall|i: int|
                0 <= i < s.characters.len() ==> (#[trigger] has_key(
                    after.characters,
                    s.characters[i].key(),
                ) <==> s.characters[i].owner() != id)
            &&& forall|i: int|
                0 <= i < s.organizations.len() ==> (#[trigger] has_key(
                    after.organizations,
                    s.organizations[i].key(),
                ) <==> s.organizations[i].owner() != id)
            &&& forall|i: int|
                0 <= i < s.quests.len() ==> (#[trigger] has_key(after.quests, s.quests[i].key())
                    <==> s.quests[i].owner() != id)
            &&& forall|i: int|
                0 <= i < s.heroes.len() ==> (#[trigger] has_key(after.heroes, s.heroes[i].key())
                    <==> s.heroes[i].owner() != id)
            &&& forall|i: int|
                0 <= i < s.sessions.len() ==> (#[trigger] has_key(
                    after.sessions,
                    s.sessions[i].key(),
                ) <==> s.sessions[i].owner() != id)
            &&& forall|i: int|
                0 <= i < s.timeline_events.len() ==> (#[trigger] has_key(
                    after.timeline_events,
                    s.timeline_events[i].key(),
                ) <==> s.timeline_events[i].owner() != id)
            &&& forall|i: int|
                0 <= i < s.secrets.len() ==> (#[trigger] has_key(after.secrets, s.secrets[i].key())
                    <==> s.secrets[i].owner() != id)
            &&& forall|i: int|
                0 <= i < s.relationships.len() ==> (#[trigger] has_key(
                    after.relationships,
                    s.relationships[i].key(),
                ) <==> s.relationships[i].owner() != id)
            &&& forall|i: int|
                0 <= i < s.tags.len() ==> (#[trigger] has_key(after.tags, s.tags[i].key())
                    <==> s.tags[i].owner() != id)
            &&& forall|i: int|
                0 <= i < s.ai_conversations.len() ==> (#[trigger] has_key(
                    after.ai_conversations,
                    s.ai_conversations[i].key(),
                ) <==> s.ai_conversations[i].owner() != id)
            &&& forall|i: int|
                0 <= i < s.ai_messages.len() ==> (#[trigger] has_key(
                    after.ai_messages,
                    s.ai_messages[i].key(),
                ) <==> has_key(after.ai_conversations, s.ai_messages[i].owner()))
            &&& forall|j: int|
                0 <= j < after.search_index.len() ==> (#[trigger] after.search_index[j]).campaign_id
                    != id
        }),
{
    let after = without_campaign(s, id);
    let campaigns = without_key(s.campaigns, id);
    lemma_filter_keys(s.campaigns, has_other_key::<Campaign>(id));
    if has_key(campaigns, id) {
        let c = choose|c: int| 0 <= c < campaigns.len() && #[trigger] campaigns[c].key() == id;
        assert(has_other_key::<Campaign>(id)(campaigns[c]));
    }
    assert forall|i: int| 0 <= i < s.players.len() implies (#[trigger] has_key(
        after.players,
        s.players[i].key(),
    ) <==> s.players[i].owner() != id) by {
        lemma_cascade_found(s.players, s.campaigns, id, i);
    }
    lemma_detached(surviving(s.locations, campaigns));
    assert forall|i: int| 0 <= i < s.locations.len() implies (#[trigger] has_key(
        after.locations,
        s.locations[i].key(),
    ) <==> s.locations[i].owner() != id) by {
        lemma_cascade_found(s.locations, s.campaigns, id, i);
    }
    assert forall|i: int| 0 <= i < s.characters.len() implies (#[trigger] has_key(
        after.characters,
        s.characters[i].key(),
    ) <==> s.characters[i].owner() != id) by {
        lemma_cascade_found(s.characters, s.campaigns, id, i);
    }
    assert forall|i: int| 0 <= i < s.organizations.len() implies (#[trigger] has_key(
        after.organizations,
        s.organizations[i].key(),
    ) <==> s.organizations[i].owner() != id) by {
        lemma_cascade_found(s.organizations, s.campaigns, id, i);
    }
    assert forall|i: int| 0 <= i < s.quests.len() implies (#[trigger] has_key(
        after.quests,
        s.quests[i].key(),
    ) <==> s.quests[i].owner() != id) by {
        lemma_cascade_found(s.quests, s.campaigns, id, i);
    }
    lemma_released(surviving(s.heroes, campaigns), surviving(s.players, campaigns));
    assert forall|i: int| 0 <= i < s.heroes.len() implies (#[trigger] has_key(
        after.heroes,
        s.heroes[i].key(),
    ) <==> s.heroes[i].owner() != id) by {
        lemma_cascade_found(s.heroes, s.campaigns, id, i);
    }
    assert forall|i: int| 0 <= i < s.sessions.len() implies (#[trigger] has_key(
        after.sessions,
        s.sessions[i].key(),
    ) <==> s.sessions[i].owner() != id) by {
        lemma_cascade_found(s.sessions, s.campaigns, id, i);
    }
    assert forall|i: int| 0 <= i < s.timeline_events.len() implies (#[trigger] has_key(
        after.timeline_events,
        s.timeline_events[i].key(),
    ) <==> s.timeline_events[i].owner() != id) by {
        lemma_cascade_found(s.timeline_events, s.campaigns, id, i);
    }
    assert forall|i: int| 0 <= i < s.secrets.len() implies (#[trigger] has_key(
        after.secrets,
        s.secrets[i].key(),
    ) <==> s.secrets[i].owner() != id) by {
        lemma_cascade_found(s.secrets, s.campaigns, id, i);
    }
    assert forall|i: int| 0 <= i < s.relationships.len() implies (#[trigger] has_key(
        after.relationships,
        s.relationships[i].key(),
    ) <==> s.relationships[i].owner() != id) by {
        lemma_cascade_found(s.relationships, s.campaigns, id, i);
    }
    assert forall|i: int| 0 <= i < s.tags.len() implies (#[trigger] has_key(
        after.tags,
        s.tags[i].key(),
    ) <==> s.tags[i].owner() != id) by {
        lemma_cascade_found(s.tags, s.campaigns, id, i);
    }
    assert forall|i: int| 0 <= i < s.ai_conversations.len() implies (#[trigger] has_key(
        after.ai_conversations,
        s.ai_conversations[i].key(),
    ) <==> s.ai_conversations[i].owner() != id) by {
        lemma_cascade_found(s.ai_conversations, s.campaigns, id, i);
    }
    lemma_filter_keys(
        s.ai_messages,
        has_owner_in::<AiMessage, AiConversation>(after.ai_conversations),
    );
    assert forall|i: int| 0 <= i < s.ai_messages.len() implies (#[trigger] has_key(
        after.ai_messages,
        s.ai_messages[i].key(),
    ) <==> has_key(after.ai_conversations, s.ai_messages[i].owner())) by {
        lemma_find_at(s.ai_messages, i);
    }
    lemma_index_filter(s.search_index, is_within(campaigns));
    assert forall|j: int| 0 <= j < after.search_index.len() implies (
    #[trigger] after.search_index[j]).campaign_id != id by {
        assert(after.search_index.contains(after.search_index[j]));
        assert(is_within(campaigns)(after.search_index[j]));
    }
}

/// After an owner is removed, a row is found exactly where its owner was
/// another.
proof fn lemma_cascade_found<R: Row, P: Row>(rows: Seq<R>, owners: Seq<P>, id: Seq<char>, i: int)
    requires
        keys_distinct(rows),
        keys_distinct(owners),
        owners_exist(rows, owners),
        0 <= i < rows.len(),
    ensures
        has_key(surviving(rows, without_key(owners, id)), rows[i].key()) <==> rows[i].owner() != id,
{
    law_cascade(rows, owners, id, i);
}

/// Orphans, not cascade: after a location is removed, a location that lay
/// within it is found as it was but without a parent, and a location that
/// lay elsewhere is found as it was.
pub proof fn law_location_delete_orphans(s: Snapshot, id: Seq<char>, i: int)
    requires
        s.wf(),
        0 <= i < s.locations.len(),
        s.locations[i].key() != id,
    ensures
        find(without_location(s, id).locations, s.locations[i].key()) == Some(
            match s.locations[i].parent_id {
                Some(p) => if p@ == id {
                    orphan(s.locations[i])
                } else {
                    s.locations[i]
                },
                None => s.locations[i],
            },
        ),
{
    let child = s.locations[i];
    let pred = has_other_key::<Location>(id);
    let fewer = without_key(s.locations, id);
    lemma_filter_keys(s.locations, pred);
    lemma_find_at(s.locations, i);
    assert(pred(child));
    assert(find(fewer, child.key()) == Some(child));
    let j = index_of(fewer, child.key());
    lemma_detached(fewer);
    let after = detached(fewer);
    lemma_find_at(after, j);
    match child.parent_id {
        Some(p) => {
            if p@ == id {
                if has_key(fewer, id) {
                    let c = choose|c: int| 0 <= c < fewer.len() && #[trigger] fewer[c].key() == id;
                    assert(pred(fewer[c]));
                }
            } else {
                assert(has_key(s.locations, p@));
                let q = index_of(s.locations, p@);
                assert(pred(s.locations[q]));
                assert(has_key(fewer, s.locations[q].key()));
            }
        },
        None => {},
    }
}

/// After a player is removed, a hero it played is found as it was but
/// without a player, and every other hero is found as it was.
pub proof fn law_player_delete_releases(s: Snapshot, id: Seq<char>, i: int)
    requires
        s.wf(),
        0 <= i < s.heroes.len(),
    ensures
        find(without_player(s, id).heroes, s.heroes[i].key()) == Some(
            match s.heroes[i].player_id {
                Some(p) => if p@ == id {
                    unassigned(s.heroes[i])
                } else {
                    s.heroes[i]
                },
                None => s.heroes[i],
            },
        ),
{
    let hero = s.heroes[i];
    let players = without_key(s.players, id);
    let pred = has_other_key::<crate::entity::player::Player>(id);
    lemma_filter_keys(s.players, pred);
    lemma_released(s.heroes, players);
    let after = released(s.heroes, players);
    lemma_find_at(after, i);
    match hero.player_id {
        Some(p) => {
            if p@ == id {
                if has_key(players, id) {
                    let c = choose|c: int| 0 <= c < players.len() && #[trigger] players[c].key() == id;
                    assert(pred(players[c]));
                }
            } else {
                assert(has_key(s.players, p@));
                let q = index_of(s.players, p@);
                assert(pred(s.players[q]));
                assert(has_key(players, s.players[q].key()));
            }
        },
        None => {},
    }
}

/// After a tag is removed it is attached to nothing, every other attachment
/// is as it was, and no entity is touched.
pub proof fn law_tag_delete_detaches(
    s: Snapshot,
    id: Seq<char>,
    tag: Seq<char>,
    entity_type: Seq<char>,
    entity_id: Seq<char>,
)
    requires
        s.wf(),
    ensures
        ({
            let after = without_tag(s, id);
            &&& !is_attached(after.entity_tags, id, entity_type, entity_id)
            &&& tag != id ==> (is_attached(after.entity_tags, tag, entity_type, entity_id)
                <==> is_attached(s.entity_tags, tag, entity_type, entity_id))
            &&& after == Snapshot { tags: after.tags, entity_tags: after.entity_tags, ..s }
        }),
{
    let tags = without_key(s.tags, id);
    let after = attached(s.entity_tags, tags);
    let keep = has_other_key::<crate::entity::tag::Tag>(id);
    lemma_filter_keys(s.tags, keep);
    lemma_attachments_filter(s.entity_tags, has_tag_in(tags));
    if has_key(tags, id) {
        let c = choose|c: int| 0 <= c < tags.len() && #[trigger] tags[c].key() == id;
        assert(keep(tags[c]));
    }
    if is_attached(after, id, entity_type, entity_id) {
        let j = choose|j: int|
            0 <= j < after.len() && (#[trigger] after[j]).joins(id, entity_type, entity_id);
        assert(after.contains(after[j]));
        assert(has_tag_in(tags)(after[j]));
    }
    if tag != id {
        if is_attached(after, tag, entity_type, entity_id) {
            let j = choose|j: int|
                0 <= j < after.len() && (#[trigger] after[j]).joins(tag, entity_type, entity_id);
            assert(after.contains(after[j]));
            assert(s.entity_tags.contains(after[j]));
            let p = choose|p: int| 0 <= p < s.entity_tags.len() && s.entity_tags[p] == after[j];
            assert(s.entity_tags[p].joins(tag, entity_type, entity_id));
        }
        if is_attached(s.entity_tags, tag, entity_type, entity_id) {
            let p = choose|p: int|
                0 <= p < s.entity_tags.len() && (#[trigger] s.entity_tags[p]).joins(
                    tag,
                    entity_type,
                    entity_id,
                );
            let t = s.entity_tags[p];
            assert(has_key(s.tags, t.tag_id@));
            let q = index_of(s.tags, t.tag_id@);
            assert(keep(s.tags[q]));
            assert(has_key(tags, s.tags[q].key()));
            assert(has_tag_in(tags)(t));
            assert(s.entity_tags.contains(t));
            assert(after.contains(t));
            let j = choose|j: int| 0 <= j < after.len() && after[j] == t;
            assert(after[j].joins(tag, entity_type, entity_id));
        }
    }
}

/// A row stored under a fresh key is found under that key, and every other
/// key finds what it found before.
pub proof fn law_stored_row_is_found<R: Row>(rows: Seq<R>, row: R, other: Seq<char>)
    requires
        keys_distinct(rows),
        !has_key(rows, row.key()),
        other != row.key(),
    ensures
        find(rows.push(row), row.key()) == Some(row),
        find(rows.push(row), other) == find(rows, other),
        keys_distinct(rows.push(row)),
{
    lemma_push_keys(rows, row);
}

/// A removed row is not found any more, and every other key finds what it
/// found before.
pub proof fn law_removed_row_is_gone<R: Row>(rows: Seq<R>, id: Seq<char>, other: Seq<char>)
    requires
        keys_distinct(rows),
        other != id,
    ensures
        find(without_key(rows, id), id) is None,
        find(without_key(rows, id), other) == find(rows, other),
        keys_distinct(without_key(rows, id)),
{
    let keep = has_other_key::<R>(id);
    let fewer = without_key(rows, id);
    lemma_filter_keys(rows, keep);
    if has_key(fewer, id) {
        let j = index_of(fewer, id);
        assert(keep(fewer[j]));
    }
    if has_key(rows, other) {
        let i = index_of(rows, other);
        assert(keep(rows[i]));
    } else {
        assert(!has_key(fewer, other));
    }
}

/// Removing what is not stored changes nothing: without the key among the
/// rows, the rows without the key are the rows.
pub proof fn law_delete_is_idempotent<R: Row>(rows: Seq<R>, id: Seq<char>)
    requires
        !has_key(rows, id),
    ensures
        without_key(rows, id) == rows,
        without_key(without_key(rows, id), id) == without_key(rows, id),
{
    assert forall|i: int| 0 <= i < rows.len() implies has_other_key::<R>(id)(rows[i]) by {
        assert(rows[i].key() != id);
    }
    lemma_filter_all(rows, has_other_key::<R>(id));
}

/// The index follows the rows: each stored row of a searchable kind has
/// exactly the entry that it projects to, and a row that is not stored has
/// none.
pub proof fn law_index_follows_rows<R: Indexed>(
    index: Seq<IndexEntryView>,
    rows: Seq<R>,
    id: Seq<char>,
)
    requires
        mirrors(index, rows),
        entries_distinct(index),
        keys_distinct(rows),
    ensures
        entry_of(index, R::kind(), id) == match find(rows, id) {
            Some(row) => Some(projection(row)),
            None => None,
        },
{
    if has_key(rows, id) {
        let i = index_of(rows, id);
        let e = projection(rows[i]);
        assert(index.contains(e));
        let j = choose|j: int| 0 <= j < index.len() && index[j] == e;
        assert(is_entry_for(index[j], R::kind(), id));
        let c = choose|c: int|
            0 <= c < index.len() && is_entry_for(#[trigger] index[c], R::kind(), id);
        if c != j {
            assert(!(index[c].kind == index[j].kind && index[c].entity_id == index[j].entity_id));
        }
    } else {
        if exists|j: int| 0 <= j < index.len() && is_entry_for(#[trigger] index[j], R::kind(), id) {
            let j = choose|j: int|
                0 <= j < index.len() && is_entry_for(#[trigger] index[j], R::kind(), id);
            assert(has_key(rows, index[j].entity_id));
        }
    }
}

/// Search is scoped: every entry of the index belongs to the campaign of the
/// row it stands for, so two rows of the same name in two campaigns have two
/// entries, one in each campaign.
pub proof fn law_index_entries_are_scoped<R: Indexed>(
    index: Seq<IndexEntryView>,
    rows: Seq<R>,
    j: int,
)
    requires
        mirrors(index, rows),
        entries_distinct(index),
        keys_distinct(rows),
        0 <= j < index.len(),
        index[j].kind == R::kind(),
    ensures
        find(rows, index[j].entity_id) matches Some(row) && index[j] == projection(row)
            && index[j].campaign_id == row.owner(),
{
    law_index_follows_rows(index, rows, index[j].entity_id);
    assert(is_entry_for(index[j], R::kind(), index[j].entity_id));
    let c = choose|c: int|
        0 <= c < index.len() && is_entry_for(#[trigger] index[c], R::kind(), index[j].entity_id);
    if c != j {
        assert(!(index[c].kind == index[j].kind && index[c].entity_id == index[j].entity_id));
    }
}

/// Token counts accumulate: two additions in a row leave each total at the
/// stored total plus both counts, whatever the times of the two changes.
pub proof fn law_token_counts_accumulate(
    conversation: AiConversation,
    first: (i32, i32, i32, i32),
    second: (i32, i32, i32, i32),
    t1: Timestamp,
    t2: Timestamp,
)
    requires
        totals_fit(conversation, first.0, first.1, first.2, first.3),
        totals_fit(
            accumulated(conversation, first.0, first.1, first.2, first.3, t1),
            second.0,
            second.1,
            second.2,
            second.3,
        ),
    ensures
        ({
            let once = accumulated(conversation, first.0, first.1, first.2, first.3, t1);
            let twice = accumulated(once, second.0, second.1, second.2, second.3, t2);
            &&& twice.total_input_tokens == conversation.total_input_tokens + first.0 + second.0
            &&& twice.total_output_tokens == conversation.total_output_tokens + first.1 + second.1
            &&& twice.total_cache_read_tokens == conversation.total_cache_read_tokens + first.2
                + second.2
            &&& twice.total_cache_creation_tokens == conversation.total_cache_creation_tokens
                + first.3 + second.3
            &&& twice.id == conversation.id
            &&& twice.campaign_id == conversation.campaign_id
            &&& twice.context_type == conversation.context_type
            &&& twice.created_at == conversation.created_at
        }),
{
}

/// In every store the messages of a conversation carry the numbers one, two,
/// three and so on in the order in which they were added, so that they are
/// listed in that order.
pub proof fn law_messages_are_numbered(s: Snapshot, conversation: Seq<char>, k: int)
    requires
        s.wf(),
        0 <= k < owned_by(s.ai_messages, conversation).len(),
    ensures
        owned_by(s.ai_messages, conversation)[k].message_order == k + 1,
        listed(owned_by(s.ai_messages, conversation)) == owned_by(s.ai_messages, conversation),
{
    let messages = owned_by(s.ai_messages, conversation);
    assert forall|i: int, j: int|
        #![trigger messages[i], messages[j]]
        0 <= i < j < messages.len() implies messages[i].before(&messages[j]) by {
        assert(messages[i].message_order == i + 1);
        assert(messages[j].message_order == j + 1);
    }
    lemma_listed_of_ordered(messages);
}

/// Message orders count up from one: a conversation without messages gives
/// its first message the place 1, each message added to a conversation moves
/// its next place up by one, and a message added to another conversation
/// leaves it where it was.
pub proof fn law_message_orders_count_up(
    messages: Seq<AiMessage>,
    row: AiMessage,
    conversation: Seq<char>,
)
    ensures
        next_order(Seq::empty(), conversation) == 1,
        row.owner() == conversation ==> next_order(messages.push(row), conversation) == next_order(
            messages,
            conversation,
        ) + 1,
        row.owner() != conversation ==> next_order(messages.push(row), conversation) == next_order(
            messages,
            conversation,
        ),
{
    reveal(Seq::filter);
    assert(owned_by(Seq::<AiMessage>::empty(), conversation).len() == 0);
    messages.lemma_filter_push(row, is_owned_by::<AiMessage>(conversation));
}

} // verus!
