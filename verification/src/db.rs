//! The store: every table, the attachments of tags, and the full-text
//! index, with the rules that hold of them after every operation.

use crate::entity::ai_conversation::AiConversation;
use crate::entity::ai_message::AiMessage;
use crate::entity::campaign::Campaign;
use crate::entity::character::Character;
use crate::entity::entity_tag::EntityTag;
use crate::entity::hero::Hero;
use crate::entity::location::Location;
use crate::entity::organization::Organization;
use crate::entity::player::Player;
use crate::entity::quest::Quest;
use crate::entity::relationship::Relationship;
use crate::entity::secret::Secret;
use crate::entity::session::Session;
use crate::entity::tag::Tag;
use crate::entity::timeline::TimelineEvent;
use crate::search_index::{
    entries_distinct, entries_of, entry_of, is_in_campaign, is_other_entry, lemma_index_filter,
    lemma_mirror_push_other, lemma_mirror_remove_other, mirrors, without_entry, IndexEntry,
    IndexEntryView, IndexedKind, SearchIndex,
};
use crate::table::{
    has_key, keys_distinct, lemma_owned_of_kept, owned_by, owners_exist, Row, Table,
};
use vstd::prelude::*;

verus! {

/// What the store holds at one moment.
pub struct Snapshot {
    pub campaigns: Seq<Campaign>,
    pub players: Seq<Player>,
    pub locations: Seq<Location>,
    pub characters: Seq<Character>,
    pub organizations: Seq<Organization>,
    pub quests: Seq<Quest>,
    pub heroes: Seq<Hero>,
    pub sessions: Seq<Session>,
    pub timeline_events: Seq<TimelineEvent>,
    pub secrets: Seq<Secret>,
    pub relationships: Seq<Relationship>,
    pub tags: Seq<Tag>,
    pub entity_tags: Seq<EntityTag>,
    pub ai_conversations: Seq<AiConversation>,
    pub ai_messages: Seq<AiMessage>,
    pub search_index: Seq<IndexEntryView>,
}

/// Whether every location that names a parent names a stored location.
pub open spec fn parents_exist(locations: Seq<Location>) -> bool {
    forall|i: int|
        0 <= i < locations.len() ==> match (#[trigger] locations[i]).parent_id {
            Some(p) => has_key(locations, p@),
            None => true,
        }
}

/// Whether every hero that names a player names a stored player.
pub open spec fn players_exist(heroes: Seq<Hero>, players: Seq<Player>) -> bool {
    forall|i: int|
        0 <= i < heroes.len() ==> match (#[trigger] heroes[i]).player_id {
            Some(p) => has_key(players, p@),
            None => true,
        }
}

/// Whether every attachment is that of a stored tag.
pub open spec fn tags_exist(entity_tags: Seq<EntityTag>, tags: Seq<Tag>) -> bool {
    forall|i: int| 0 <= i < entity_tags.len() ==> has_key(tags, (#[trigger] entity_tags[i]).tag_id@)
}

/// Whether no attachment is stored twice.
pub open spec fn attachments_distinct(entity_tags: Seq<EntityTag>) -> bool {
    forall|i: int, j: int|
        #![trigger entity_tags[i], entity_tags[j]]
        0 <= i < entity_tags.len() && 0 <= j < entity_tags.len() && i != j ==> !entity_tags[i].joins(
            entity_tags[j].tag_id@,
            entity_tags[j].entity_type@,
            entity_tags[j].entity_id@,
        )
}

/// Whether no two tags of one campaign share a name.
pub open spec fn tag_names_distinct(tags: Seq<Tag>) -> bool {
    forall|i: int, j: int|
        #![trigger tags[i], tags[j]]
        0 <= i < tags.len() && 0 <= j < tags.len() && i != j ==> !(tags[i].campaign_id@
            == tags[j].campaign_id@ && tags[i].name@ == tags[j].name@)
}

/// Whether no two sessions of one campaign share a number.
pub open spec fn session_numbers_distinct(sessions: Seq<Session>) -> bool {
    forall|i: int, j: int|
        #![trigger sessions[i], sessions[j]]
        0 <= i < sessions.len() && 0 <= j < sessions.len() && i != j ==> !(sessions[i].campaign_id@
            == sessions[j].campaign_id@ && sessions[i].session_number
            == sessions[j].session_number)
}

/// Whether no two conversations of one campaign share a context.
pub open spec fn contexts_distinct(conversations: Seq<AiConversation>) -> bool {
    forall|i: int, j: int|
        #![trigger conversations[i], conversations[j]]
        0 <= i < conversations.len() && 0 <= j < conversations.len() && i != j ==> !(
        conversations[i].campaign_id@ == conversations[j].campaign_id@
            && conversations[i].context_type@ == conversations[j].context_type@)
}

/// Whether the messages of each conversation are numbered from one, in the
/// order in which they are stored.
pub open spec fn orders_counted(messages: Seq<AiMessage>) -> bool {
    forall|conversation: Seq<char>, k: int|
        0 <= k < owned_by(messages, conversation).len() ==> (#[trigger] owned_by(
            messages,
            conversation,
        )[k]).message_order == k + 1
}

/// A filter that treats the messages of a conversation alike leaves the
/// messages of each conversation numbered from one.
pub proof fn lemma_orders_kept(messages: Seq<AiMessage>, keep: spec_fn(AiMessage) -> bool)
    requires
        orders_counted(messages),
        forall|i: int, j: int|
            0 <= i < messages.len() && 0 <= j < messages.len() && (#[trigger] messages[i]).owner()
                == (#[trigger] messages[j]).owner() ==> keep(messages[i]) == keep(messages[j]),
    ensures
        orders_counted(messages.filter(keep)),
{
    let fewer = messages.filter(keep);
    assert forall|conversation: Seq<char>, k: int|
        0 <= k < owned_by(fewer, conversation).len() implies (#[trigger] owned_by(
        fewer,
        conversation,
    )[k]).message_order == k + 1 by {
        if exists|i: int| 0 <= i < messages.len() && (#[trigger] messages[i]).owner() == conversation {
            let w = choose|i: int|
                0 <= i < messages.len() && (#[trigger] messages[i]).owner() == conversation;
            lemma_owned_of_kept(messages, keep, conversation, keep(messages[w]));
        } else {
            lemma_owned_of_kept(messages, keep, conversation, true);
        }
        if owned_by(fewer, conversation) == owned_by(messages, conversation) {
            assert(owned_by(messages, conversation)[k].message_order == k + 1);
        }
    }
}

impl Snapshot {
    /// The store before anything was stored.
    pub open spec fn empty() -> Snapshot {
        Snapshot {
            campaigns: Seq::empty(),
            players: Seq::empty(),
            locations: Seq::empty(),
            characters: Seq::empty(),
            organizations: Seq::empty(),
            quests: Seq::empty(),
            heroes: Seq::empty(),
            sessions: Seq::empty(),
            timeline_events: Seq::empty(),
            secrets: Seq::empty(),
            relationships: Seq::empty(),
            tags: Seq::empty(),
            entity_tags: Seq::empty(),
            ai_conversations: Seq::empty(),
            ai_messages: Seq::empty(),
            search_index: Seq::empty(),
        }
    }

    /// Identity: within each table no identifier occurs twice.
    pub open spec fn keys_ok(self) -> bool {
        &&& keys_distinct(self.campaigns)
        &&& keys_distinct(self.players)
        &&& keys_distinct(self.locations)
        &&& keys_distinct(self.characters)
        &&& keys_distinct(self.organizations)
        &&& keys_distinct(self.quests)
        &&& keys_distinct(self.heroes)
        &&& keys_distinct(self.sessions)
        &&& keys_distinct(self.timeline_events)
        &&& keys_distinct(self.secrets)
        &&& keys_distinct(self.relationships)
        &&& keys_distinct(self.tags)
        &&& keys_distinct(self.ai_conversations)
        &&& keys_distinct(self.ai_messages)
    }

    /// Ownership: every row of a campaign belongs to a stored campaign, and
    /// every message to a stored conversation.
    pub open spec fn owners_ok(self) -> bool {
        &&& owners_exist(self.players, self.campaigns)
        &&& owners_exist(self.locations, self.campaigns)
        &&& owners_exist(self.characters, self.campaigns)
        &&& owners_exist(self.organizations, self.campaigns)
        &&& owners_exist(self.quests, self.campaigns)
        &&& owners_exist(self.heroes, self.campaigns)
        &&& owners_exist(self.sessions, self.campaigns)
        &&& owners_exist(self.timeline_events, self.campaigns)
        &&& owners_exist(self.secrets, self.campaigns)
        &&& owners_exist(self.relationships, self.campaigns)
        &&& owners_exist(self.tags, self.campaigns)
        &&& owners_exist(self.ai_conversations, self.campaigns)
        &&& owners_exist(self.ai_messages, self.ai_conversations)
    }

    /// References: a parent location, the player of a hero and the tag of an
    /// attachment are stored rows.
    pub open spec fn links_ok(self) -> bool {
        &&& parents_exist(self.locations)
        &&& players_exist(self.heroes, self.players)
        &&& tags_exist(self.entity_tags, self.tags)
    }

    /// Uniqueness: of tag names, session numbers and conversation contexts
    /// within a campaign, and of attachments.
    pub open spec fn uniques_ok(self) -> bool {
        &&& tag_names_distinct(self.tags)
        &&& session_numbers_distinct(self.sessions)
        &&& contexts_distinct(self.ai_conversations)
        &&& attachments_distinct(self.entity_tags)
    }

    /// The index mirrors the six searchable tables: each of their rows has
    /// exactly one entry, which is the projection of the row, and there is no
    /// other entry.
    pub open spec fn index_ok(self) -> bool {
        &&& entries_distinct(self.search_index)
        &&& mirrors(self.search_index, self.characters)
        &&& mirrors(self.search_index, self.locations)
        &&& mirrors(self.search_index, self.organizations)
        &&& mirrors(self.search_index, self.quests)
        &&& mirrors(self.search_index, self.heroes)
        &&& mirrors(self.search_index, self.sessions)
    }

    /// Whether `index` mirrors the searchable tables of every kind but
    /// `kind`.
    pub open spec fn others_mirrored(self, index: Seq<IndexEntryView>, kind: IndexedKind) -> bool {
        &&& kind != IndexedKind::Character ==> mirrors(index, self.characters)
        &&& kind != IndexedKind::Location ==> mirrors(index, self.locations)
        &&& kind != IndexedKind::Organization ==> mirrors(index, self.organizations)
        &&& kind != IndexedKind::Quest ==> mirrors(index, self.quests)
        &&& kind != IndexedKind::Hero ==> mirrors(index, self.heroes)
        &&& kind != IndexedKind::Session ==> mirrors(index, self.sessions)
    }

    /// An entry added to the index leaves it in step with the tables of the
    /// other kinds.
    pub proof fn lemma_entry_added(self, index: Seq<IndexEntryView>, entry: IndexEntryView)
        requires
            self.others_mirrored(index, entry.kind),
        ensures
            self.others_mirrored(index.push(entry), entry.kind),
    {
        if entry.kind != IndexedKind::Character {
            lemma_mirror_push_other(index, self.characters, entry);
        }
        if entry.kind != IndexedKind::Location {
            lemma_mirror_push_other(index, self.locations, entry);
        }
        if entry.kind != IndexedKind::Organization {
            lemma_mirror_push_other(index, self.organizations, entry);
        }
        if entry.kind != IndexedKind::Quest {
            lemma_mirror_push_other(index, self.quests, entry);
        }
        if entry.kind != IndexedKind::Hero {
            lemma_mirror_push_other(index, self.heroes, entry);
        }
        if entry.kind != IndexedKind::Session {
            lemma_mirror_push_other(index, self.sessions, entry);
        }
    }

    /// An entry removed from the index leaves it in step with the tables of
    /// the other kinds, and without an entry that occurs twice.
    pub proof fn lemma_entry_removed(self, kind: IndexedKind, id: Seq<char>)
        requires
            self.index_ok(),
        ensures
            self.others_mirrored(without_entry(self.search_index, kind, id), kind),
            entries_distinct(without_entry(self.search_index, kind, id)),
    {
        lemma_index_filter(self.search_index, is_other_entry(kind, id));
        if kind != IndexedKind::Character {
            lemma_mirror_remove_other(self.search_index, self.characters, kind, id);
        }
        if kind != IndexedKind::Location {
            lemma_mirror_remove_other(self.search_index, self.locations, kind, id);
        }
        if kind != IndexedKind::Organization {
            lemma_mirror_remove_other(self.search_index, self.organizations, kind, id);
        }
        if kind != IndexedKind::Quest {
            lemma_mirror_remove_other(self.search_index, self.quests, kind, id);
        }
        if kind != IndexedKind::Hero {
            lemma_mirror_remove_other(self.search_index, self.heroes, kind, id);
        }
        if kind != IndexedKind::Session {
            lemma_mirror_remove_other(self.search_index, self.sessions, kind, id);
        }
    }

    /// Everything that holds of the store after every operation.
    pub open spec fn wf(self) -> bool {
        &&& self.keys_ok()
        &&& self.owners_ok()
        &&& self.links_ok()
        &&& self.uniques_ok()
        &&& self.index_ok()
        &&& orders_counted(self.ai_messages)
    }
}

/// The store.
pub struct Database {
    pub(crate) campaigns: Table<Campaign>,
    pub(crate) players: Table<Player>,
    pub(crate) locations: Table<Location>,
    pub(crate) characters: Table<Character>,
    pub(crate) organizations: Table<Organization>,
    pub(crate) quests: Table<Quest>,
    pub(crate) heroes: Table<Hero>,
    pub(crate) sessions: Table<Session>,
    pub(crate) timeline_events: Table<TimelineEvent>,
    pub(crate) secrets: Table<Secret>,
    pub(crate) relationships: Table<Relationship>,
    pub(crate) tags: Table<Tag>,
    pub(crate) entity_tags: Vec<EntityTag>,
    pub(crate) ai_conversations: Table<AiConversation>,
    pub(crate) ai_messages: Table<AiMessage>,
    pub(crate) search_index: SearchIndex,
}

impl Database {
    /// What the store holds.
    pub open(crate) spec fn view(&self) -> Snapshot {
        Snapshot {
            campaigns: self.campaigns@,
            players: self.players@,
            locations: self.locations@,
            characters: self.characters@,
            organizations: self.organizations@,
            quests: self.quests@,
            heroes: self.heroes@,
            sessions: self.sessions@,
            timeline_events: self.timeline_events@,
            secrets: self.secrets@,
            relationships: self.relationships@,
            tags: self.tags@,
            entity_tags: self.entity_tags@,
            ai_conversations: self.ai_conversations@,
            ai_messages: self.ai_messages@,
            search_index: self.search_index@,
        }
    }

    /// Whether the rules of the store hold.
    pub open spec fn wf(&self) -> bool {
        self@.wf()
    }

    /// An empty store.
    pub fn new() -> (db: Database)
        ensures
            db@ == Snapshot::empty(),
            db.wf(),
    {
        Database {
            campaigns: Table::new(),
            players: Table::new(),
            locations: Table::new(),
            characters: Table::new(),
            organizations: Table::new(),
            quests: Table::new(),
            heroes: Table::new(),
            sessions: Table::new(),
            timeline_events: Table::new(),
            secrets: Table::new(),
            relationships: Table::new(),
            tags: Table::new(),
            entity_tags: Vec::new(),
            ai_conversations: Table::new(),
            ai_messages: Table::new(),
            search_index: SearchIndex::new(),
        }
    }

    /// The index entry of the row `id` of kind `kind`, where the row is
    /// stored.
    pub fn index_entry(&self, kind: IndexedKind, id: &String) -> (r: Option<IndexEntry>)
        requires
            self.wf(),
        ensures
            match r {
                Some(e) => entry_of(self@.search_index, kind, id@) == Some(e@),
                None => entry_of(self@.search_index, kind, id@) is None,
            },
    {
        self.search_index.lookup(kind, id)
    }

    /// The index entries of the campaign `campaign_id`, in the order in which
    /// they were made.
    pub fn index_entries(&self, campaign_id: &String) -> (out: Vec<IndexEntry>)
        ensures
            entries_of(out@) == self@.search_index.filter(is_in_campaign(campaign_id@)),
    {
        self.search_index.of_campaign(campaign_id)
    }
}

} // verus!
