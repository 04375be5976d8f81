//! Characters: storing, reading, listing, changing and removing them.

use crate::clock::Timestamp;
use crate::commands::validation::CreateCharacterInput;
use crate::db::{Database, Snapshot};
use crate::entity::character::{Character, CharacterPatch};
use crate::error::{foreign_key_text, is_summary, not_found_text, unique_text, AppError};
use crate::ident::{is_random_uuid_text, new_id};
use crate::search_index::{
    lemma_mirror_insert, lemma_mirror_remove, lemma_mirror_replace, projection, without_entry,
    Indexed, IndexedKind,
};
use crate::table::{
    find, has_key, has_other_key, index_of, lemma_filter_keys, lemma_find_at, lemma_push_keys,
    lemma_update_keys, listed, owned_by, sort_rows, without_key, Row,
};
use vstd::prelude::*;

verus! {

/// A character as it is handed to the caller.
#[derive(Debug)]
pub struct CharacterResponse {
    pub id: String,
    pub campaign_id: String,
    pub name: String,
    pub lineage: Option<String>,
    pub occupation: Option<String>,
    pub is_alive: bool,
    pub description: Option<String>,
    pub personality: Option<String>,
    pub motivations: Option<String>,
    pub secrets: Option<String>,
    pub voice_notes: Option<String>,
    pub stat_block_json: Option<String>,
    pub created_at: String,
    pub updated_at: String,
}

impl CharacterResponse {
    /// Whether the response shows `row`: every field as stored, times and
    /// dates as their display texts.
    pub open spec fn represents(self, row: Character) -> bool {
        &&& self.id == row.id
        &&& self.campaign_id == row.campaign_id
        &&& self.name == row.name
        &&& self.lineage == row.lineage
        &&& self.occupation == row.occupation
        &&& self.is_alive == row.is_alive
        &&& self.description == row.description
        &&& self.personality == row.personality
        &&& self.motivations == row.motivations
        &&& self.secrets == row.secrets
        &&& self.voice_notes == row.voice_notes
        &&& self.stat_block_json == row.stat_block_json
        &&& self.created_at@ == row.created_at.text()
        &&& self.updated_at@ == row.updated_at.text()
    }

    /// Whether the responses show `rows`, one for one and in order.
    pub open spec fn represent_all(out: Seq<CharacterResponse>, rows: Seq<Character>) -> bool {
        out.len() == rows.len() && forall|i: int|
            0 <= i < out.len() ==> (#[trigger] out[i]).represents(rows[i])
    }

    /// Whether the responses list `of`: they show its rows in listing order,
    /// rows that may stand either way in the order in which they are stored.
    pub open spec fn list(out: Seq<CharacterResponse>, of: Seq<Character>) -> bool {
        CharacterResponse::represent_all(out, listed(of))
    }

    /// The response that shows `model`.
    pub fn from(model: Character) -> (r: CharacterResponse)
        ensures
            r.represents(model),
    {
        let created_at = model.created_at.to_string();
        let updated_at = model.updated_at.to_string();
        CharacterResponse {
            id: model.id,
            campaign_id: model.campaign_id,
            name: model.name,
            lineage: model.lineage,
            occupation: model.occupation,
            is_alive: model.is_alive,
            description: model.description,
            personality: model.personality,
            motivations: model.motivations,
            secrets: model.secrets,
            voice_notes: model.voice_notes,
            stat_block_json: model.stat_block_json,
            created_at,
            updated_at,
        }
    }

    /// The responses that show `rows`, one for one and in order.
    pub fn from_all(rows: Vec<Character>) -> (out: Vec<CharacterResponse>)
        ensures
            CharacterResponse::represent_all(out@, rows@),
    {
        let mut out: Vec<CharacterResponse> = Vec::new();
        let mut i: usize = 0;
        while i < rows.len()
            invariant
                i <= rows.len(),
                out@.len() == i,
                forall|k: int| 0 <= k < i ==> (#[trigger] out@[k]).represents(rows@[k]),
            decreases rows.len() - i,
        {
            out.push(CharacterResponse::from(rows[i].copy()));
            i += 1;
        }
        out
    }
}

/// The store with one more character and its index entry.
pub open spec fn with_character(s: Snapshot, row: Character) -> Snapshot {
    Snapshot {
        characters: s.characters.push(row),
        search_index: s.search_index.push(projection(row)),
        ..s
    }
}

/// The store with the character at position `i` replaced by `row`, and its
/// index entry by that of `row`.
pub open spec fn with_character_replaced(s: Snapshot, i: int, row: Character) -> Snapshot {
    Snapshot {
        characters: s.characters.update(i, row),
        search_index: without_entry(s.search_index, IndexedKind::Character, row.key()).push(
            projection(row),
        ),
        ..s
    }
}

/// Why the store refuses to take `row`, if it does: the identifier is
/// taken, or a rule of the store would be broken.
pub open spec fn character_refusal(s: Snapshot, row: Character) -> Option<Seq<char>> {
    if has_key(s.characters, row.key()) {
        Some(unique_text("characters.id"@))
    } else if !has_key(s.campaigns, row.owner()) {
        Some(foreign_key_text())
    } else {
        None
    }
}

/// Storing a character that the store does not refuse keeps the rules of the
/// store.
pub proof fn lemma_with_character_wf(s: Snapshot, row: Character)
    requires
        s.wf(),
        character_refusal(s, row) is None,
    ensures
        with_character(s, row).wf(),
{
    lemma_push_keys(s.characters, row);
    lemma_mirror_insert(s.search_index, s.characters, row);
    s.lemma_entry_added(s.search_index, projection(row));
}

/// Replacing a character by one of the same identity and campaign keeps the
/// rules of the store.
pub proof fn lemma_with_character_replaced_wf(s: Snapshot, i: int, row: Character)
    requires
        s.wf(),
        0 <= i < s.characters.len(),
        row.key() == s.characters[i].key(),
        row.owner() == s.characters[i].owner(),
    ensures
        with_character_replaced(s, i, row).wf(),
{
    lemma_update_keys(s.characters, i, row);
    lemma_mirror_replace(s.search_index, s.characters, i, row);
    s.lemma_entry_removed(IndexedKind::Character, row.key());
    s.lemma_entry_added(
        without_entry(s.search_index, IndexedKind::Character, row.key()),
        projection(row),
    );
    let after = s.characters.update(i, row);
    assert forall|k: int| 0 <= k < after.len() implies has_key(
        s.campaigns,
        #[trigger] after[k].owner(),
    ) by {
        assert(after[k].owner() == s.characters[k].owner());
    }
}

/// The store without the character `id` and without its index entry.
pub open spec fn without_character(s: Snapshot, id: Seq<char>) -> Snapshot {
    Snapshot {
        characters: without_key(s.characters, id),
        search_index: without_entry(s.search_index, IndexedKind::Character, id),
        ..s
    }
}

/// Removing a character keeps the rules of the store.
pub proof fn lemma_without_character_wf(s: Snapshot, id: Seq<char>)
    requires
        s.wf(),
    ensures
        without_character(s, id).wf(),
{
    lemma_filter_keys(s.characters, has_other_key::<Character>(id));
    lemma_mirror_remove(s.search_index, s.characters, id);
    s.lemma_entry_removed(IndexedKind::Character, id);
    let fewer = without_key(s.characters, id);
    assert forall|k: int| 0 <= k < fewer.len() implies has_key(
        s.campaigns,
        #[trigger] fewer[k].owner(),
    ) by {
        assert(s.characters.contains(fewer[k]));
    }
}

/// Stores `row`, unless the store refuses it.
pub fn insert_character(db: &mut Database, row: Character) -> (r: Result<(), AppError>)
    requires
        old(db).wf(),
    ensures
        final(db).wf(),
        match r {
            Ok(()) => {
                &&& character_refusal(old(db)@, row) is None
                &&& final(db)@ == with_character(old(db)@, row)
            },
            Err(e) => {
                &&& e is Database
                &&& Some(e.detail()) == character_refusal(old(db)@, row)
                &&& final(db)@ == old(db)@
            },
        },
{
    if db.characters.contains(&row.id) {
        return Err(AppError::unique("characters.id"));
    }
    if !db.campaigns.contains(&row.campaign_id) {
        return Err(AppError::foreign_key());
    }
    let entry = row.project();
    proof {
        lemma_with_character_wf(db@, row);
    }
    db.characters.insert(row);
    db.search_index.insert(entry);
    Ok(())
}

/// What creating a character from `input` comes to: a violated rule of the input is
/// reported and nothing is stored; otherwise the row is stored under a fresh
/// identifier unless the store refuses it.
pub open spec fn character_creation(
    before: Snapshot,
    after: Snapshot,
    input: CreateCharacterInput,
    r: Result<CharacterResponse, AppError>,
) -> bool {
    match r {
        Ok(response) => {
            &&& input.meets_rules()
            &&& find(after.characters, response.id@) matches Some(row)
            &&& row == Character::created(
                row.id,
                row.created_at,
                input.campaign_id,
                input.name,
                input.lineage,
                input.occupation,
                input.description,
                input.personality,
                input.motivations,
                input.secrets,
                input.voice_notes,
            )
            &&& is_random_uuid_text(row.id@)
            &&& row.created_at.is_clock_time()
            &&& character_refusal(before, row) is None
            &&& response.represents(row)
            &&& after == with_character(before, row)
        },
        Err(e) => {
            &&& after == before
            &&& if !input.meets_rules() {
                e is Validation && is_summary(e.detail(), input.violations())
            } else {
                e is Database && exists|row: Character|
                    {
                        &&& #[trigger] character_refusal(before, row) == Some(e.detail())
                        &&& row == Character::created(
                            row.id,
                            row.created_at,
                            input.campaign_id,
                            input.name,
                            input.lineage,
                            input.occupation,
                            input.description,
                            input.personality,
                            input.motivations,
                            input.secrets,
                            input.voice_notes,
                        )
                    }
            }
        },
    }
}

/// Creates a character from `input`, once the input meets its rules: alive,
/// with the current time as the time of its making and of its last change.
pub fn create_character_impl(
    db: &mut Database,
    input: CreateCharacterInput,
) -> (r: Result<CharacterResponse, AppError>)
    requires
        old(db).wf(),
    ensures
        final(db).wf(),
        character_creation(old(db)@, final(db)@, input, r),
{
    match input.validate() {
        Ok(()) => {},
        Err(errors) => {
            return Err(AppError::from(errors));
        },
    }
    let id = new_id();
    let now = Timestamp::now();
    let row = Character::new(
        id,
        now,
        input.campaign_id,
        input.name,
        input.lineage,
        input.occupation,
        input.description,
        input.personality,
        input.motivations,
        input.secrets,
        input.voice_notes,
    );
    let response = CharacterResponse::from(row.copy());
    let ghost made = row;
    proof {
        lemma_push_keys(db@.characters, row);
    }
    match insert_character(db, row) {
        Ok(()) => Ok(response),
        Err(e) => {
            assert(character_refusal(old(db)@, made) == Some(e.detail()));
            Err(e)
        },
    }
}

/// The input that the arguments of a creation describe: what is left out
/// takes its default.
pub fn character_input(
    campaign_id: String,
    name: String,
    lineage: Option<String>,
    occupation: Option<String>,
    description: Option<String>,
) -> (input: CreateCharacterInput)
    ensures
        input.name == name,
        input.campaign_id == campaign_id,
        input.lineage == lineage,
        input.occupation == occupation,
        input.description == description,
        input.personality is None,
        input.motivations is None,
        input.secrets is None,
        input.voice_notes is None,
{
    CreateCharacterInput {
        name,
        campaign_id,
        lineage,
        occupation,
        description,
        personality: None,
        motivations: None,
        secrets: None,
        voice_notes: None,
    }
}

/// Creates a character of the campaign `campaign_id` of which no more than
/// its name, lineage, occupation and description is known.
pub fn create_character(
    db: &mut Database,
    campaign_id: String,
    name: String,
    lineage: Option<String>,
    occupation: Option<String>,
    description: Option<String>,
) -> (r: Result<CharacterResponse, AppError>)
    requires
        old(db).wf(),
    ensures
        final(db).wf(),
        exists|input: CreateCharacterInput|
            {
                &&& input.name == name
                &&& input.campaign_id == campaign_id
                &&& input.lineage == lineage
                &&& input.occupation == occupation
                &&& input.description == description
                &&& input.personality is None
                &&& input.motivations is None
                &&& input.secrets is None
                &&& input.voice_notes is None
                &&& #[trigger] character_creation(old(db)@, final(db)@, input, r)
            },
{
    let input = character_input(campaign_id, name, lineage, occupation, description);
    create_character_impl(db, input)
}

/// The character `id`.
pub fn get_character_impl(db: &Database, id: String) -> (r: Result<CharacterResponse, AppError>)
    requires
        db.wf(),
    ensures
        match r {
            Ok(response) => find(db@.characters, id@) matches Some(row) && response.represents(row),
            Err(e) => {
                &&& find(db@.characters, id@) is None
                &&& e is NotFound
                &&& e.detail() == not_found_text("Character"@, id@)
            },
        },
{
    match db.characters.get(&id) {
        Some(row) => Ok(CharacterResponse::from(row)),
        None => Err(AppError::not_found("Character", id.as_str())),
    }
}

/// The characters of the campaign `campaign_id`, by name.
pub fn list_characters_impl(
    db: &Database,
    campaign_id: String,
) -> (r: Result<Vec<CharacterResponse>, AppError>)
    requires
        db.wf(),
    ensures
        r matches Ok(out) && CharacterResponse::list(out@, owned_by(db@.characters, campaign_id@)),
{
    let rows = sort_rows(db.characters.owned(&campaign_id));
    Ok(CharacterResponse::from_all(rows))
}

/// Applies `patch` to the character `id` at the time `now`.
pub fn change_character(
    db: &mut Database,
    id: &String,
    patch: CharacterPatch,
    now: Timestamp,
) -> (r: Result<CharacterResponse, AppError>)
    requires
        old(db).wf(),
    ensures
        final(db).wf(),
        match r {
            Ok(response) => {
                &&& find(old(db)@.characters, id@) matches Some(before)
                &&& find(final(db)@.characters, id@) == Some(before.patched(patch, now))
                &&& response.represents(before.patched(patch, now))
                &&& final(db)@ == with_character_replaced(
                    old(db)@,
                    index_of(old(db)@.characters, id@),
                    before.patched(patch, now),
                )
            },
            Err(e) => {
                &&& final(db)@ == old(db)@
                &&& match find(old(db)@.characters, id@) {
                    None => e is NotFound && e.detail() == not_found_text(
                        "Character"@,
                        id@,
                    ),
                    Some(_) => false,
                }
            },
        },
{
    match db.characters.position(id) {
        None => Err(AppError::not_found("Character", id.as_str())),
        Some(i) => {
            let before = db.characters.row(i).copy();
            proof {
                lemma_find_at(db@.characters, i as int);
                before.lemma_patch_keeps_identity(patch, now);
            }
            let row = before.apply(patch, now);
            let entry = row.project();
            let response = CharacterResponse::from(row.copy());
            proof {
                lemma_update_keys(db@.characters, i as int, row);
                lemma_with_character_replaced_wf(db@, i as int, row);
            }
            db.characters.replace(i, row);
            db.search_index.remove(IndexedKind::Character, id);
            db.search_index.insert(entry);
            Ok(response)
        },
    }
}

/// Changes the character `id`: each argument that is given replaces the
/// stored value, what is left out stays, and the time of the last change
/// becomes the current time.
pub fn update_character_impl(
    db: &mut Database,
    id: String,
    name: Option<String>,
    lineage: Option<String>,
    occupation: Option<String>,
    is_alive: Option<bool>,
    description: Option<String>,
    personality: Option<String>,
    motivations: Option<String>,
    secrets: Option<String>,
    voice_notes: Option<String>,
    stat_block_json: Option<String>,
) -> (r: Result<CharacterResponse, AppError>)
    requires
        old(db).wf(),
    ensures
        final(db).wf(),
        ({
            let patch = CharacterPatch {
                name,
                lineage,
                occupation,
                is_alive,
                description,
                personality,
                motivations,
                secrets,
                voice_notes,
                stat_block_json,
            };
            match find(old(db)@.characters, id@) {
                None => {
                    &&& final(db)@ == old(db)@
                    &&& r matches Err(e) && e is NotFound && e.detail() == not_found_text(
                        "Character"@,
                        id@,
                    )
                },
                Some(before) => {
                    &&& r matches Ok(response)
                    &&& find(final(db)@.characters, id@) matches Some(after)
                    &&& after == before.patched(patch, after.updated_at)
                    &&& after.updated_at.is_clock_time()
                    &&& response.represents(after)
                    &&& final(db)@ == with_character_replaced(
                        old(db)@,
                        index_of(old(db)@.characters, id@),
                        after,
                    )
                },
            }
        }),
{
    let patch = CharacterPatch {
        name,
        lineage,
        occupation,
        is_alive,
        description,
        personality,
        motivations,
        secrets,
        voice_notes,
        stat_block_json,
    };
    let now = Timestamp::now();
    change_character(db, &id, patch, now)
}

/// Removes the character `id`; tells whether there was one.
pub fn delete_character_impl(db: &mut Database, id: String) -> (r: Result<bool, AppError>)
    requires
        old(db).wf(),
    ensures
        final(db).wf(),
        r matches Ok(deleted) && deleted == has_key(old(db)@.characters, id@),
        final(db)@ == without_character(old(db)@, id@),
{
    proof {
        lemma_without_character_wf(db@, id@);
    }
    let deleted = db.characters.remove_key(&id);
    db.search_index.remove(IndexedKind::Character, &id);
    Ok(deleted)
}

} // verus!
