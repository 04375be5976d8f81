//! What happens to rows that point at a removed row without being owned by
//! it: a location loses its parent, a hero loses its player, and an
//! attachment goes with its tag.

use crate::db::{attachments_distinct, parents_exist, players_exist, tags_exist};
use crate::entity::entity_tag::EntityTag;
use crate::entity::hero::Hero;
use crate::entity::location::Location;
use crate::entity::player::Player;
use crate::entity::tag::Tag;
use crate::search_index::{lemma_mirror_same_entries, mirrors, projection, IndexEntryView};
use crate::table::{has_key, keys_distinct, lemma_filter_members, owners_exist, Row, Table};
use vstd::prelude::*;

verus! {

/// Two tables of the same keys, position by position, find the same keys.
pub proof fn lemma_same_keys<R: Row>(a: Seq<R>, b: Seq<R>)
    requires
        a.len() == b.len(),
        forall|i: int| 0 <= i < a.len() ==> #[trigger] a[i].key() == b[i].key(),
    ensures
        forall|k: Seq<char>| has_key(a, k) <==> has_key(b, k),
        keys_distinct(a) <==> keys_distinct(b),
{
    assert forall|k: Seq<char>| has_key(a, k) <==> has_key(b, k) by {
        if has_key(a, k) {
            let i = choose|i: int| 0 <= i < a.len() && #[trigger] a[i].key() == k;
            assert(b[i].key() == k);
        }
        if has_key(b, k) {
            let i = choose|i: int| 0 <= i < b.len() && #[trigger] b[i].key() == k;
            assert(a[i].key() == k);
        }
    }
    if keys_distinct(a) {
        assert forall|i: int, j: int|
            0 <= i < b.len() && 0 <= j < b.len() && i != j implies #[trigger] b[i].key()
            != #[trigger] b[j].key() by {
            assert(a[i].key() != a[j].key());
        }
    }
    if keys_distinct(b) {
        assert forall|i: int, j: int|
            0 <= i < a.len() && 0 <= j < a.len() && i != j implies #[trigger] a[i].key()
            != #[trigger] a[j].key() by {
            assert(b[i].key() != b[j].key());
        }
    }
}

/// A location without its parent.
pub open spec fn orphan(location: Location) -> Location {
    Location { parent_id: None, ..location }
}

/// A location as it is once the locations not among `all` are gone: without
/// its parent where the parent is gone, as it was otherwise.
pub open spec fn detach(all: Seq<Location>) -> spec_fn(Location) -> Location {
    |l: Location|
        match l.parent_id {
            Some(p) => if has_key(all, p@) {
                l
            } else {
                orphan(l)
            },
            None => l,
        }
}

/// The locations, each without its parent where the parent is not among
/// them.
pub open spec fn detached(locations: Seq<Location>) -> Seq<Location> {
    locations.map_values(detach(locations))
}

/// Detaching changes nothing but the parents that are gone: keys, owners and
/// index entries stay, and afterwards every parent is a stored location.
pub proof fn lemma_detached(locations: Seq<Location>)
    ensures
        detached(locations).len() == locations.len(),
        forall|i: int|
            0 <= i < locations.len() ==> {
                let l = #[trigger] detached(locations)[i];
                &&& l.key() == locations[i].key()
                &&& l.owner() == locations[i].owner()
                &&& projection(l) == projection(locations[i])
                &&& (l == locations[i] || l == orphan(locations[i]))
            },
        forall|k: Seq<char>| has_key(detached(locations), k) <==> has_key(locations, k),
        keys_distinct(locations) ==> keys_distinct(detached(locations)),
        parents_exist(detached(locations)),
        parents_exist(locations) ==> detached(locations) == locations,
{
    let out = detached(locations);
    assert forall|i: int| 0 <= i < locations.len() implies #[trigger] out[i].key()
        == locations[i].key() by {}
    lemma_same_keys(out, locations);
    assert forall|i: int| 0 <= i < out.len() implies match (#[trigger] out[i]).parent_id {
        Some(p) => has_key(out, p@),
        None => true,
    } by {
        match locations[i].parent_id {
            Some(p) => {
                if has_key(locations, p@) {
                    assert(out[i] == locations[i]);
                    assert(has_key(out, p@));
                }
            },
            None => {},
        }
    }
    if parents_exist(locations) {
        assert forall|i: int| 0 <= i < locations.len() implies out[i] == locations[i] by {
            let l = locations[i];
        }
        assert(out =~= locations);
    }
}

/// Detaching keeps every location with its campaign.
pub proof fn lemma_detached_owned<P: Row>(locations: Seq<Location>, owners: Seq<P>)
    requires
        owners_exist(locations, owners),
    ensures
        owners_exist(detached(locations), owners),
{
    lemma_detached(locations);
    let out = detached(locations);
    assert forall|i: int| 0 <= i < out.len() implies has_key(owners, #[trigger] out[i].owner()) by {
        assert(out[i].owner() == locations[i].owner());
    }
}

/// Detaching leaves the index in step with the locations.
pub proof fn lemma_detached_mirrored(index: Seq<IndexEntryView>, locations: Seq<Location>)
    requires
        mirrors(index, locations),
    ensures
        mirrors(index, detached(locations)),
{
    lemma_detached(locations);
    lemma_mirror_same_entries(index, locations, detached(locations));
}

/// Takes from each location the parent that is not among the locations.
pub fn detach_locations(table: &mut Table<Location>)
    ensures
        final(table)@ == detached(old(table)@),
{
    let ghost start = table@;
    let mut i: usize = 0;
    while i < table.len()
        invariant
            i <= table@.len(),
            table@.len() == start.len(),
            forall|k: int| 0 <= k < i ==> #[trigger] table@[k] == detached(start)[k],
            forall|k: int| i <= k < start.len() ==> #[trigger] table@[k] == start[k],
        decreases table@.len() - i,
    {
        proof {
            lemma_detached(start);
            assert forall|k: int| 0 <= k < start.len() implies #[trigger] table@[k].key()
                == start[k].key() by {
                if k < i {
                    assert(table@[k] == detached(start)[k]);
                }
            }
            lemma_same_keys(table@, start);
        }
        let gone = match &table.row(i).parent_id {
            Some(p) => !table.contains(p),
            None => false,
        };
        if gone {
            let mut row = table.row(i).copy();
            row.parent_id = None;
            table.replace(i, row);
        }
        i += 1;
    }
    assert(table@ =~= detached(start));
}

/// A hero without its player.
pub open spec fn unassigned(hero: Hero) -> Hero {
    Hero { player_id: None, ..hero }
}

/// A hero as it is once the players not among `players` are gone: without
/// its player where the player is gone, as it was otherwise.
pub open spec fn release(players: Seq<Player>) -> spec_fn(Hero) -> Hero {
    |h: Hero|
        match h.player_id {
            Some(p) => if has_key(players, p@) {
                h
            } else {
                unassigned(h)
            },
            None => h,
        }
}

/// The heroes, each without its player where the player is not among
/// `players`.
pub open spec fn released(heroes: Seq<Hero>, players: Seq<Player>) -> Seq<Hero> {
    heroes.map_values(release(players))
}

/// Releasing changes nothing but the players that are gone: keys, owners and
/// index entries stay, and afterwards every player of a hero is stored.
pub proof fn lemma_released(heroes: Seq<Hero>, players: Seq<Player>)
    ensures
        released(heroes, players).len() == heroes.len(),
        forall|i: int|
            0 <= i < heroes.len() ==> {
                let h = #[trigger] released(heroes, players)[i];
                &&& h.key() == heroes[i].key()
                &&& h.owner() == heroes[i].owner()
                &&& projection(h) == projection(heroes[i])
                &&& (h == heroes[i] || h == unassigned(heroes[i]))
            },
        forall|k: Seq<char>| has_key(released(heroes, players), k) <==> has_key(heroes, k),
        keys_distinct(heroes) ==> keys_distinct(released(heroes, players)),
        players_exist(released(heroes, players), players),
        players_exist(heroes, players) ==> released(heroes, players) == heroes,
{
    let out = released(heroes, players);
    assert forall|i: int| 0 <= i < heroes.len() implies #[trigger] out[i].key()
        == heroes[i].key() by {}
    lemma_same_keys(out, heroes);
    if players_exist(heroes, players) {
        assert forall|i: int| 0 <= i < heroes.len() implies out[i] == heroes[i] by {
            let h = heroes[i];
        }
        assert(out =~= heroes);
    }
}

/// Releasing keeps every hero with its campaign.
pub proof fn lemma_released_owned<P: Row>(heroes: Seq<Hero>, players: Seq<Player>, owners: Seq<P>)
    requires
        owners_exist(heroes, owners),
    ensures
        owners_exist(released(heroes, players), owners),
{
    lemma_released(heroes, players);
    let out = released(heroes, players);
    assert forall|i: int| 0 <= i < out.len() implies has_key(owners, #[trigger] out[i].owner()) by {
        assert(out[i].owner() == heroes[i].owner());
    }
}

/// Releasing leaves the index in step with the heroes.
pub proof fn lemma_released_mirrored(
    index: Seq<IndexEntryView>,
    heroes: Seq<Hero>,
    players: Seq<Player>,
)
    requires
        mirrors(index, heroes),
    ensures
        mirrors(index, released(heroes, players)),
{
    lemma_released(heroes, players);
    lemma_mirror_same_entries(index, heroes, released(heroes, players));
}

/// Takes from each hero the player that is not among `players`.
pub fn release_heroes(table: &mut Table<Hero>, players: &Table<Player>)
    ensures
        final(table)@ == released(old(table)@, players@),
{
    let ghost start = table@;
    let mut i: usize = 0;
    while i < table.len()
        invariant
            i <= table@.len(),
            table@.len() == start.len(),
            forall|k: int| 0 <= k < i ==> #[trigger] table@[k] == released(start, players@)[k],
            forall|k: int| i <= k < start.len() ==> #[trigger] table@[k] == start[k],
        decreases table@.len() - i,
    {
        let gone = match &table.row(i).player_id {
            Some(p) => !players.contains(p),
            None => false,
        };
        if gone {
            let mut row = table.row(i).copy();
            row.player_id = None;
            table.replace(i, row);
        }
        i += 1;
    }
    assert(table@ =~= released(start, players@));
}

/// The test that an attachment is that of one of `tags`.
pub open spec fn has_tag_in(tags: Seq<Tag>) -> spec_fn(EntityTag) -> bool {
    |t: EntityTag| has_key(tags, t.tag_id@)
}

/// The attachments of the tags among `tags`: what is left of the
/// attachments when tags have been removed.
pub open spec fn attached(entity_tags: Seq<EntityTag>, tags: Seq<Tag>) -> Seq<EntityTag> {
    entity_tags.filter(has_tag_in(tags))
}

/// What a filter keeps of the attachments: only attachments that were there,
/// all those that pass, and none twice.
pub proof fn lemma_attachments_filter(entity_tags: Seq<EntityTag>, pred: spec_fn(EntityTag) -> bool)
    ensures
        attachments_distinct(entity_tags) ==> attachments_distinct(entity_tags.filter(pred)),
        forall|t: EntityTag| #[trigger]
            entity_tags.filter(pred).contains(t) <==> entity_tags.contains(t) && pred(t),
    decreases entity_tags.len(),
{
    reveal(Seq::filter);
    lemma_filter_members(entity_tags, pred);
    let out = entity_tags.filter(pred);
    if entity_tags.len() > 0 && attachments_distinct(entity_tags) {
        let init = entity_tags.drop_last();
        let sub = init.filter(pred);
        lemma_attachments_filter(init, pred);
        assert(attachments_distinct(init)) by {
            assert forall|i: int, j: int|
                #![trigger init[i], init[j]]
                0 <= i < init.len() && 0 <= j < init.len() && i != j implies !init[i].joins(
                init[j].tag_id@,
                init[j].entity_type@,
                init[j].entity_id@,
            ) by {
                assert(init[i] == entity_tags[i] && init[j] == entity_tags[j]);
            }
        }
        assert forall|i: int, j: int|
            #![trigger out[i], out[j]]
            0 <= i < out.len() && 0 <= j < out.len() && i != j implies !out[i].joins(
            out[j].tag_id@,
            out[j].entity_type@,
            out[j].entity_id@,
        ) by {
            if i < sub.len() && j < sub.len() {
                assert(out[i] == sub[i] && out[j] == sub[j]);
            } else {
                let k = if i < sub.len() {
                    i
                } else {
                    j
                };
                assert(sub.contains(sub[k]));
                assert(init.contains(sub[k]));
                let p = choose|p: int| 0 <= p < init.len() && init[p] == sub[k];
                assert(entity_tags[p] == sub[k]);
                assert(entity_tags[entity_tags.len() - 1] == entity_tags.last());
            }
        }
    }
}

/// The attachments that are left all have their tag, and none is there
/// twice.
pub proof fn lemma_attached(entity_tags: Seq<EntityTag>, tags: Seq<Tag>)
    ensures
        tags_exist(attached(entity_tags, tags), tags),
        attachments_distinct(entity_tags) ==> attachments_distinct(attached(entity_tags, tags)),
        tags_exist(entity_tags, tags) ==> attached(entity_tags, tags) == entity_tags,
{
    let pred = has_tag_in(tags);
    let out = attached(entity_tags, tags);
    lemma_attachments_filter(entity_tags, pred);
    assert forall|i: int| 0 <= i < out.len() implies has_key(tags, (#[trigger] out[i]).tag_id@) by {
        assert(out.contains(out[i]));
        assert(pred(out[i]));
    }
    if tags_exist(entity_tags, tags) {
        assert forall|i: int| 0 <= i < entity_tags.len() implies pred(entity_tags[i]) by {
            assert(has_key(tags, entity_tags[i].tag_id@));
        }
        lemma_filter_all(entity_tags, pred);
    }
}

/// A filter that every element passes changes nothing.
pub proof fn lemma_filter_all<A>(s: Seq<A>, pred: spec_fn(A) -> bool)
    requires
        forall|i: int| 0 <= i < s.len() ==> pred(s[i]),
    ensures
        s.filter(pred) == s,
    decreases s.len(),
{
    reveal(Seq::filter);
    if s.len() > 0 {
        let init = s.drop_last();
        assert forall|i: int| 0 <= i < init.len() implies pred(init[i]) by {
            assert(init[i] == s[i]);
        }
        lemma_filter_all(init, pred);
        assert(init.push(s.last()) =~= s);
    } else {
        assert(s.filter(pred) =~= s);
    }
}

/// Removes the attachments whose tag is not among `tags`.
pub fn retain_attached(entity_tags: &mut Vec<EntityTag>, tags: &Table<Tag>)
    ensures
        final(entity_tags)@ == attached(old(entity_tags)@, tags@),
{
    let mut kept: Vec<EntityTag> = Vec::new();
    let mut i: usize = 0;
    let ghost pred = has_tag_in(tags@);
    proof {
        reveal(Seq::filter);
        assert(entity_tags@.take(0) =~= Seq::<EntityTag>::empty());
    }
    while i < entity_tags.len()
        invariant
            i <= entity_tags.len(),
            pred == has_tag_in(tags@),
            kept@ == entity_tags@.take(i as int).filter(pred),
        decreases entity_tags.len() - i,
    {
        proof {
            let before = entity_tags@.take(i as int);
            assert(entity_tags@.take(i + 1) == before.push(entity_tags@[i as int]));
            before.lemma_filter_push(entity_tags@[i as int], pred);
        }
        if tags.contains(&entity_tags[i].tag_id) {
            kept.push(entity_tags[i].copy());
        }
        i += 1;
    }
    proof {
        assert(entity_tags@.take(entity_tags@.len() as int) == entity_tags@);
    }
    *entity_tags = kept;
}

} // verus!
