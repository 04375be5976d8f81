//! Players: storing, reading, listing, changing and removing them.

use crate::clock::Timestamp;
use crate::db::{Database, Snapshot};
use crate::entity::player::{Player, PlayerPatch};
use crate::error::{foreign_key_text, not_found_text, unique_text, AppError};
use crate::ident::{is_random_uuid_text, new_id};
use crate::links::{
    lemma_released, lemma_released_mirrored, lemma_released_owned, release_heroes, released,
};
use crate::table::{
    find, has_key, has_other_key, index_of, lemma_filter_keys, lemma_find_at, lemma_push_keys,
    lemma_update_keys, listed, owned_by, sort_rows, without_key, Row,
};
use vstd::prelude::*;

verus! {

/// A player as it is handed to the caller.
#[derive(Debug)]
pub struct PlayerResponse {
    pub id: String,
    pub campaign_id: String,
    pub name: String,
    pub preferences: Option<String>,
    pub boundaries: Option<String>,
    pub notes: Option<String>,
    pub created_at: String,
    pub updated_at: String,
}

impl PlayerResponse {
    /// Whether the response shows `row`: every field as stored, times and
    /// dates as their display texts.
    pub open spec fn represents(self, row: Player) -> bool {
        &&& self.id == row.id
        &&& self.campaign_id == row.campaign_id
        &&& self.name == row.name
        &&& self.preferences == row.preferences
        &&& self.boundaries == row.boundaries
        &&& self.notes == row.notes
        &&& self.created_at@ == row.created_at.text()
        &&& self.updated_at@ == row.updated_at.text()
    }

    /// Whether the responses show `rows`, one for one and in order.
    pub open spec fn represent_all(out: Seq<PlayerResponse>, rows: Seq<Player>) -> bool {
        out.len() == rows.len() && forall|i: int|
            0 <= i < out.len() ==> (#[trigger] out[i]).represents(rows[i])
    }

    /// Whether the responses list `of`: they show its rows in listing order,
    /// rows that may stand either way in the order in which they are stored.
    pub open spec fn list(out: Seq<PlayerResponse>, of: Seq<Player>) -> bool {
        PlayerResponse::represent_all(out, listed(of))
    }

    /// The response that shows `model`.
    pub fn from(model: Player) -> (r: PlayerResponse)
        ensures
            r.represents(model),
    {
        let created_at = model.created_at.to_string();
        let updated_at = model.updated_at.to_string();
        PlayerResponse {
            id: model.id,
            campaign_id: model.campaign_id,
            name: model.name,
            preferences: model.preferences,
            boundaries: model.boundaries,
            notes: model.notes,
            created_at,
            updated_at,
        }
    }

    /// The responses that show `rows`, one for one and in order.
    pub fn from_all(rows: Vec<Player>) -> (out: Vec<PlayerResponse>)
        ensures
            PlayerResponse::represent_all(out@, rows@),
    {
        let mut out: Vec<PlayerResponse> = Vec::new();
        let mut i: usize = 0;
        while i < rows.len()
            invariant
                i <= rows.len(),
                out@.len() == i,
                forall|k: int| 0 <= k < i ==> (#[trigger] out@[k]).represents(rows@[k]),
            decreases rows.len() - i,
        {
            out.push(PlayerResponse::from(rows[i].copy()));
            i += 1;
        }
        out
    }
}

/// The store with one more player.
pub open spec fn with_player(s: Snapshot, row: Player) -> Snapshot {
    Snapshot {
        players: s.players.push(row),
        ..s
    }
}

/// The store with the player at position `i` replaced by `row`.
pub open spec fn with_player_replaced(s: Snapshot, i: int, row: Player) -> Snapshot {
    Snapshot {
        players: s.players.update(i, row),
        ..s
    }
}

/// Why the store refuses to take `row`, if it does: the identifier is
/// taken, or a rule of the store would be broken.
pub open spec fn player_refusal(s: Snapshot, row: Player) -> Option<Seq<char>> {
    if has_key(s.players, row.key()) {
        Some(unique_text("players.id"@))
    } else if !has_key(s.campaigns, row.owner()) {
        Some(foreign_key_text())
    } else {
        None
    }
}

/// Storing a player that the store does not refuse keeps the rules of the
/// store.
pub proof fn lemma_with_player_wf(s: Snapshot, row: Player)
    requires
        s.wf(),
        player_refusal(s, row) is None,
    ensures
        with_player(s, row).wf(),
{
    lemma_push_keys(s.players, row);
}

/// Replacing a player by one of the same identity and campaign keeps the
/// rules of the store.
pub proof fn lemma_with_player_replaced_wf(s: Snapshot, i: int, row: Player)
    requires
        s.wf(),
        0 <= i < s.players.len(),
        row.key() == s.players[i].key(),
        row.owner() == s.players[i].owner(),
    ensures
        with_player_replaced(s, i, row).wf(),
{
    lemma_update_keys(s.players, i, row);
    let after = s.players.update(i, row);
    assert forall|k: int| 0 <= k < after.len() implies has_key(
        s.campaigns,
        #[trigger] after[k].owner(),
    ) by {
        assert(after[k].owner() == s.players[k].owner());
    }
}

/// The store without the player `id`: the player is gone, and the heroes it
/// played are without a player.
pub open spec fn without_player(s: Snapshot, id: Seq<char>) -> Snapshot {
    Snapshot {
        players: without_key(s.players, id),
        heroes: released(s.heroes, without_key(s.players, id)),
        ..s
    }
}

/// Removing a player keeps the rules of the store.
pub proof fn lemma_without_player_wf(s: Snapshot, id: Seq<char>)
    requires
        s.wf(),
    ensures
        without_player(s, id).wf(),
{
    let players = without_key(s.players, id);
    lemma_filter_keys(s.players, has_other_key::<Player>(id));
    assert forall|k: int| 0 <= k < players.len() implies has_key(
        s.campaigns,
        #[trigger] players[k].owner(),
    ) by {
        assert(s.players.contains(players[k]));
    }
    lemma_released(s.heroes, players);
    lemma_released_owned(s.heroes, players, s.campaigns);
    lemma_released_mirrored(s.search_index, s.heroes, players);
}

/// Stores `row`, unless the store refuses it.
pub fn insert_player(db: &mut Database, row: Player) -> (r: Result<(), AppError>)
    requires
        old(db).wf(),
    ensures
        final(db).wf(),
        match r {
            Ok(()) => {
                &&& player_refusal(old(db)@, row) is None
                &&& final(db)@ == with_player(old(db)@, row)
            },
            Err(e) => {
                &&& e is Database
                &&& Some(e.detail()) == player_refusal(old(db)@, row)
                &&& final(db)@ == old(db)@
            },
        },
{
    if db.players.contains(&row.id) {
        return Err(AppError::unique("players.id"));
    }
    if !db.campaigns.contains(&row.campaign_id) {
        return Err(AppError::foreign_key());
    }
    proof {
        lemma_with_player_wf(db@, row);
    }
    db.players.insert(row);
    Ok(())
}

/// Creates a player of the campaign `campaign_id` under a fresh identifier,
/// with the current time as the time of its making and of its last change.
pub fn create_player(
    db: &mut Database,
    campaign_id: String,
    name: String,
    preferences: Option<String>,
    boundaries: Option<String>,
) -> (r: Result<PlayerResponse, AppError>)
    requires
        old(db).wf(),
    ensures
        final(db).wf(),
        match r {
            Ok(response) => {
                &&& find(final(db)@.players, response.id@) matches Some(row)
                &&& row == Player::created(
                    row.id,
                    row.created_at,
                    campaign_id,
                    name,
                    preferences,
                    boundaries,
                )
                &&& is_random_uuid_text(row.id@)
                &&& row.created_at.is_clock_time()
                &&& player_refusal(old(db)@, row) is None
                &&& response.represents(row)
                &&& final(db)@ == with_player(old(db)@, row)
            },
            Err(e) => {
                &&& final(db)@ == old(db)@
                &&& e is Database
                &&& exists|row: Player|
                    {
                        &&& #[trigger] player_refusal(old(db)@, row) == Some(e.detail())
                        &&& row == Player::created(
                            row.id,
                            row.created_at,
                            campaign_id,
                            name,
                            preferences,
                            boundaries,
                        )
                    }
            },
        },
{
    let id = new_id();
    let now = Timestamp::now();
    let row = Player::new(id, now, campaign_id, name, preferences, boundaries);
    let response = PlayerResponse::from(row.copy());
    let ghost made = row;
    proof {
        lemma_push_keys(db@.players, row);
    }
    match insert_player(db, row) {
        Ok(()) => Ok(response),
        Err(e) => {
            assert(player_refusal(old(db)@, made) == Some(e.detail()));
            Err(e)
        },
    }
}

/// The player `id`.
pub fn get_player(db: &Database, id: String) -> (r: Result<PlayerResponse, AppError>)
    requires
        db.wf(),
    ensures
        match r {
            Ok(response) => find(db@.players, id@) matches Some(row) && response.represents(row),
            Err(e) => {
                &&& find(db@.players, id@) is None
                &&& e is NotFound
                &&& e.detail() == not_found_text("Player"@, id@)
            },
        },
{
    match db.players.get(&id) {
        Some(row) => Ok(PlayerResponse::from(row)),
        None => Err(AppError::not_found("Player", id.as_str())),
    }
}

/// The players of the campaign `campaign_id`, by name.
pub fn list_players(
    db: &Database,
    campaign_id: String,
) -> (r: Result<Vec<PlayerResponse>, AppError>)
    requires
        db.wf(),
    ensures
        r matches Ok(out) && PlayerResponse::list(out@, owned_by(db@.players, campaign_id@)),
{
    let rows = sort_rows(db.players.owned(&campaign_id));
    Ok(PlayerResponse::from_all(rows))
}

/// Applies `patch` to the player `id` at the time `now`.
pub fn change_player(
    db: &mut Database,
    id: &String,
    patch: PlayerPatch,
    now: Timestamp,
) -> (r: Result<PlayerResponse, AppError>)
    requires
        old(db).wf(),
    ensures
        final(db).wf(),
        match r {
            Ok(response) => {
                &&& find(old(db)@.players, id@) matches Some(before)
                &&& find(final(db)@.players, id@) == Some(before.patched(patch, now))
                &&& response.represents(before.patched(patch, now))
                &&& final(db)@ == with_player_replaced(
                    old(db)@,
                    index_of(old(db)@.players, id@),
                    before.patched(patch, now),
                )
            },
            Err(e) => {
                &&& final(db)@ == old(db)@
                &&& match find(old(db)@.players, id@) {
                    None => e is NotFound && e.detail() == not_found_text(
                        "Player"@,
                        id@,
                    ),
                    Some(_) => false,
                }
            },
        },
{
    match db.players.position(id) {
        None => Err(AppError::not_found("Player", id.as_str())),
        Some(i) => {
            let before = db.players.row(i).copy();
            proof {
                lemma_find_at(db@.players, i as int);
                before.lemma_patch_keeps_identity(patch, now);
            }
            let row = before.apply(patch, now);
            let response = PlayerResponse::from(row.copy());
            proof {
                lemma_update_keys(db@.players, i as int, row);
                lemma_with_player_replaced_wf(db@, i as int, row);
            }
            db.players.replace(i, row);
            Ok(response)
        },
    }
}

/// Changes the player `id`: each argument that is given replaces the
/// stored value, what is left out stays, and the time of the last change
/// becomes the current time.
pub fn update_player(
    db: &mut Database,
    id: String,
    name: Option<String>,
    preferences: Option<String>,
    boundaries: Option<String>,
    notes: Option<String>,
) -> (r: Result<PlayerResponse, AppError>)
    requires
        old(db).wf(),
    ensures
        final(db).wf(),
        ({
            let patch = PlayerPatch { name, preferences, boundaries, notes };
            match find(old(db)@.players, id@) {
                None => {
                    &&& final(db)@ == old(db)@
                    &&& r matches Err(e) && e is NotFound && e.detail() == not_found_text(
                        "Player"@,
                        id@,
                    )
                },
                Some(before) => {
                    &&& r matches Ok(response)
                    &&& find(final(db)@.players, id@) matches Some(after)
                    &&& after == before.patched(patch, after.updated_at)
                    &&& after.updated_at.is_clock_time()
                    &&& response.represents(after)
                    &&& final(db)@ == with_player_replaced(
                        old(db)@,
                        index_of(old(db)@.players, id@),
                        after,
                    )
                },
            }
        }),
{
    let patch = PlayerPatch { name, preferences, boundaries, notes };
    let now = Timestamp::now();
    change_player(db, &id, patch, now)
}

/// Removes the player `id`; tells whether there was one. The heroes of the
/// player stay, without a player.
pub fn delete_player(db: &mut Database, id: String) -> (r: Result<bool, AppError>)
    requires
        old(db).wf(),
    ensures
        final(db).wf(),
        r matches Ok(deleted) && deleted == has_key(old(db)@.players, id@),
        final(db)@ == without_player(old(db)@, id@),
{
    proof {
        lemma_without_player_wf(db@, id@);
    }
    let deleted = db.players.remove_key(&id);
    release_heroes(&mut db.heroes, &db.players);
    Ok(deleted)
}

} // verus!
