//! Locations: storing, reading, listing, changing and removing them.

use crate::clock::Timestamp;
use crate::commands::validation::CreateLocationInput;
use crate::db::{Database, Snapshot};
use crate::entity::location::{Location, LocationPatch};
use crate::error::{foreign_key_text, is_summary, not_found_text, unique_text, AppError};
use crate::ident::{is_random_uuid_text, new_id};
use crate::links::{
    detach_locations, detached, lemma_detached, lemma_detached_mirrored, lemma_detached_owned,
};
use crate::search_index::{
    lemma_mirror_insert, lemma_mirror_remove, lemma_mirror_replace, projection, without_entry,
    Indexed, IndexedKind,
};
use crate::table::{
    find, has_key, has_other_key, index_of, lemma_filter_keys, lemma_find_at, lemma_push_keys,
    lemma_update_keys, listed, owned_by, sort_rows, without_key, Row,
};
use vstd::prelude::*;
use vstd::string::*;

verus! {

/// A location as it is handed to the caller.
#[derive(Debug)]
pub struct LocationResponse {
    pub id: String,
    pub campaign_id: String,
    pub parent_id: Option<String>,
    pub name: String,
    pub location_type: String,
    pub description: Option<String>,
    pub detail_level: i32,
    pub gm_notes: Option<String>,
    pub created_at: String,
    pub updated_at: String,
}

impl LocationResponse {
    /// Whether the response shows `row`: every field as stored, times and
    /// dates as their display texts.
    pub open spec fn represents(self, row: Location) -> bool {
        &&& self.id == row.id
        &&& self.campaign_id == row.campaign_id
        &&& self.parent_id == row.parent_id
        &&& self.name == row.name
        &&& self.location_type == row.location_type
        &&& self.description == row.description
        &&& self.detail_level == row.detail_level
        &&& self.gm_notes == row.gm_notes
        &&& self.created_at@ == row.created_at.text()
        &&& self.updated_at@ == row.updated_at.text()
    }

    /// Whether the responses show `rows`, one for one and in order.
    pub open spec fn represent_all(out: Seq<LocationResponse>, rows: Seq<Location>) -> bool {
        out.len() == rows.len() && forall|i: int|
            0 <= i < out.len() ==> (#[trigger] out[i]).represents(rows[i])
    }

    /// Whether the responses list `of`: they show its rows in listing order,
    /// rows that may stand either way in the order in which they are stored.
    pub open spec fn list(out: Seq<LocationResponse>, of: Seq<Location>) -> bool {
        LocationResponse::represent_all(out, listed(of))
    }

    /// The response that shows `model`.
    pub fn from(model: Location) -> (r: LocationResponse)
        ensures
            r.represents(model),
    {
        let created_at = model.created_at.to_string();
        let updated_at = model.updated_at.to_string();
        LocationResponse {
            id: model.id,
            campaign_id: model.campaign_id,
            parent_id: model.parent_id,
            name: model.name,
            location_type: model.location_type,
            description: model.description,
            detail_level: model.detail_level,
            gm_notes: model.gm_notes,
            created_at,
            updated_at,
        }
    }

    /// The responses that show `rows`, one for one and in order.
    pub fn from_all(rows: Vec<Location>) -> (out: Vec<LocationResponse>)
        ensures
            LocationResponse::represent_all(out@, rows@),
    {
        let mut out: Vec<LocationResponse> = Vec::new();
        let mut i: usize = 0;
        while i < rows.len()
            invariant
                i <= rows.len(),
                out@.len() == i,
                forall|k: int| 0 <= k < i ==> (#[trigger] out@[k]).represents(rows@[k]),
            decreases rows.len() - i,
        {
            out.push(LocationResponse::from(rows[i].copy()));
            i += 1;
        }
        out
    }
}

/// The store with one more location and its index entry.
pub open spec fn with_location(s: Snapshot, row: Location) -> Snapshot {
    Snapshot {
        locations: s.locations.push(row),
        search_index: s.search_index.push(projection(row)),
        ..s
    }
}

/// The store with the location at position `i` replaced by `row`, and its
/// index entry by that of `row`.
pub open spec fn with_location_replaced(s: Snapshot, i: int, row: Location) -> Snapshot {
    Snapshot {
        locations: s.locations.update(i, row),
        search_index: without_entry(s.search_index, IndexedKind::Location, row.key()).push(
            projection(row),
        ),
        ..s
    }
}

/// Why the store refuses to take `row`, if it does: the identifier is
/// taken, or a rule of the store would be broken.
pub open spec fn location_refusal(s: Snapshot, row: Location) -> Option<Seq<char>> {
    if has_key(s.locations, row.key()) {
        Some(unique_text("locations.id"@))
    } else if !has_key(s.campaigns, row.owner()) {
        Some(foreign_key_text())
    } else if row.parent_id matches Some(p) && !has_key(s.locations, p@) {
        Some(foreign_key_text())
    } else {
        None
    }
}

/// Storing a location that the store does not refuse keeps the rules of the
/// store.
pub proof fn lemma_with_location_wf(s: Snapshot, row: Location)
    requires
        s.wf(),
        location_refusal(s, row) is None,
    ensures
        with_location(s, row).wf(),
{
    lemma_push_keys(s.locations, row);
    lemma_mirror_insert(s.search_index, s.locations, row);
    s.lemma_entry_added(s.search_index, projection(row));
    let locations = s.locations.push(row);
    assert forall|k: int| 0 <= k < locations.len() implies match (#[trigger] locations[k]).parent_id {
        Some(p) => has_key(locations, p@),
        None => true,
    } by {
        if k < s.locations.len() {
            assert(locations[k] == s.locations[k]);
        }
    }
}

/// Why the store refuses to put `row` in the place of the location at
/// position `i`, if it does.
pub open spec fn location_change_refusal(s: Snapshot, i: int, row: Location) -> Option<Seq<char>> {
    if row.parent_id matches Some(p) && !has_key(s.locations, p@) {
        Some(foreign_key_text())
    } else {
        None
    }
}

/// A patch that asks no change is never refused: the location as it is
/// stored breaks no rule of the store.
pub proof fn lemma_empty_location_patch_is_accepted(
    s: Snapshot,
    i: int,
    patch: LocationPatch,
    now: Timestamp,
)
    requires
        s.wf(),
        0 <= i < s.locations.len(),
        patch.is_empty(),
    ensures
        location_change_refusal(s, i, s.locations[i].patched(patch, now)) is None,
{
}

/// Replacing a location by one of the same identity and campaign keeps the
/// rules of the store.
pub proof fn lemma_with_location_replaced_wf(s: Snapshot, i: int, row: Location)
    requires
        s.wf(),
        0 <= i < s.locations.len(),
        row.key() == s.locations[i].key(),
        row.owner() == s.locations[i].owner(),
        location_change_refusal(s, i, row) is None,
    ensures
        with_location_replaced(s, i, row).wf(),
{
    lemma_update_keys(s.locations, i, row);
    lemma_mirror_replace(s.search_index, s.locations, i, row);
    s.lemma_entry_removed(IndexedKind::Location, row.key());
    s.lemma_entry_added(
        without_entry(s.search_index, IndexedKind::Location, row.key()),
        projection(row),
    );
    let after = s.locations.update(i, row);
    assert forall|k: int| 0 <= k < after.len() implies has_key(
        s.campaigns,
        #[trigger] after[k].owner(),
    ) by {
        assert(after[k].owner() == s.locations[k].owner());
    }
    let locations = s.locations.update(i, row);
    assert forall|k: int| 0 <= k < locations.len() implies match (#[trigger] locations[k]).parent_id {
        Some(p) => has_key(locations, p@),
        None => true,
    } by {
        if k != i {
            assert(locations[k] == s.locations[k]);
        }
    }
}

/// The store without the location `id`: the location and its index entry
/// are gone, and the locations that lay within it are without a parent.
pub open spec fn without_location(s: Snapshot, id: Seq<char>) -> Snapshot {
    Snapshot {
        locations: detached(without_key(s.locations, id)),
        search_index: without_entry(s.search_index, IndexedKind::Location, id),
        ..s
    }
}

/// Removing a location keeps the rules of the store.
pub proof fn lemma_without_location_wf(s: Snapshot, id: Seq<char>)
    requires
        s.wf(),
    ensures
        without_location(s, id).wf(),
{
    let fewer = without_key(s.locations, id);
    lemma_filter_keys(s.locations, has_other_key::<Location>(id));
    assert forall|k: int| 0 <= k < fewer.len() implies has_key(
        s.campaigns,
        #[trigger] fewer[k].owner(),
    ) by {
        assert(s.locations.contains(fewer[k]));
    }
    lemma_detached(fewer);
    lemma_detached_owned(fewer, s.campaigns);
    lemma_mirror_remove(s.search_index, s.locations, id);
    lemma_detached_mirrored(without_entry(s.search_index, IndexedKind::Location, id), fewer);
    s.lemma_entry_removed(IndexedKind::Location, id);
}

/// Whether `row` names a parent that is not stored.
fn parent_missing(db: &Database, row: &Location) -> (r: bool)
    ensures
        r == (row.parent_id matches Some(p) && !has_key(db@.locations, p@)),
{
    match &row.parent_id {
        Some(p) => !db.locations.contains(p),
        None => false,
    }
}

/// Stores `row`, unless the store refuses it.
pub fn insert_location(db: &mut Database, row: Location) -> (r: Result<(), AppError>)
    requires
        old(db).wf(),
    ensures
        final(db).wf(),
        match r {
            Ok(()) => {
                &&& location_refusal(old(db)@, row) is None
                &&& final(db)@ == with_location(old(db)@, row)
            },
            Err(e) => {
                &&& e is Database
                &&& Some(e.detail()) == location_refusal(old(db)@, row)
                &&& final(db)@ == old(db)@
            },
        },
{
    if db.locations.contains(&row.id) {
        return Err(AppError::unique("locations.id"));
    }
    if !db.campaigns.contains(&row.campaign_id) {
        return Err(AppError::foreign_key());
    }
    if parent_missing(db, &row) {
        return Err(AppError::foreign_key());
    }
    let entry = row.project();
    proof {
        lemma_with_location_wf(db@, row);
    }
    db.locations.insert(row);
    db.search_index.insert(entry);
    Ok(())
}

/// What creating a location from `input` comes to: a violated rule of the input is
/// reported and nothing is stored; otherwise the row is stored under a fresh
/// identifier unless the store refuses it.
pub open spec fn location_creation(
    before: Snapshot,
    after: Snapshot,
    input: CreateLocationInput,
    r: Result<LocationResponse, AppError>,
) -> bool {
    match r {
        Ok(response) => {
            &&& input.meets_rules()
            &&& find(after.locations, response.id@) matches Some(row)
            &&& row == Location::created(
                row.id,
                row.created_at,
                input.campaign_id,
                input.parent_id,
                input.name,
                input.location_type,
                input.description,
            )
            &&& is_random_uuid_text(row.id@)
            &&& row.created_at.is_clock_time()
            &&& location_refusal(before, row) is None
            &&& response.represents(row)
            &&& after == with_location(before, row)
        },
        Err(e) => {
            &&& after == before
            &&& if !input.meets_rules() {
                e is Validation && is_summary(e.detail(), input.violations())
            } else {
                e is Database && exists|row: Location|
                    {
                        &&& #[trigger] location_refusal(before, row) == Some(e.detail())
                        &&& row == Location::created(
                            row.id,
                            row.created_at,
                            input.campaign_id,
                            input.parent_id,
                            input.name,
                            input.location_type,
                            input.description,
                        )
                    }
            }
        },
    }
}

/// Creates a location from `input`, once the input meets its rules: with
/// detail level 0, without notes, with the current time as the time of its
/// making and of its last change.
pub fn create_location_impl(
    db: &mut Database,
    input: CreateLocationInput,
) -> (r: Result<LocationResponse, AppError>)
    requires
        old(db).wf(),
    ensures
        final(db).wf(),
        location_creation(old(db)@, final(db)@, input, r),
{
    match input.validate() {
        Ok(()) => {},
        Err(errors) => {
            return Err(AppError::from(errors));
        },
    }
    let id = new_id();
    let now = Timestamp::now();
    let row = Location::new(
        id,
        now,
        input.campaign_id,
        input.parent_id,
        input.name,
        input.location_type,
        input.description,
    );
    let response = LocationResponse::from(row.copy());
    let ghost made = row;
    proof {
        lemma_push_keys(db@.locations, row);
    }
    match insert_location(db, row) {
        Ok(()) => Ok(response),
        Err(e) => {
            assert(location_refusal(old(db)@, made) == Some(e.detail()));
            Err(e)
        },
    }
}

/// The input that the arguments of a creation describe: what is left out
/// takes its default.
pub fn location_input(
    campaign_id: String,
    name: String,
    location_type: Option<String>,
    parent_id: Option<String>,
    description: Option<String>,
) -> (input: CreateLocationInput)
    ensures
        input.campaign_id == campaign_id,
        input.name == name,
        input.location_type@ == match location_type {
            Some(t) => t@,
            None => "settlement"@,
        },
        input.parent_id == parent_id,
        input.description == description,
{
    CreateLocationInput {
        campaign_id,
        name,
        location_type: match location_type {
            Some(t) => t,
            None => String::from_str("settlement"),
        },
        parent_id,
        description,
    }
}

/// Creates a location of the campaign `campaign_id`, a settlement unless
/// `location_type` says otherwise.
pub fn create_location(
    db: &mut Database,
    campaign_id: String,
    name: String,
    location_type: Option<String>,
    parent_id: Option<String>,
    description: Option<String>,
) -> (r: Result<LocationResponse, AppError>)
    requires
        old(db).wf(),
    ensures
        final(db).wf(),
        exists|input: CreateLocationInput|
            {
                &&& input.campaign_id == campaign_id
                &&& input.name == name
                &&& input.location_type@ == match location_type {
                    Some(t) => t@,
                    None => "settlement"@,
                }
                &&& input.parent_id == parent_id
                &&& input.description == description
                &&& #[trigger] location_creation(old(db)@, final(db)@, input, r)
            },
{
    let input = location_input(campaign_id, name, location_type, parent_id, description);
    create_location_impl(db, input)
}

/// The location `id`.
pub fn get_location_impl(db: &Database, id: String) -> (r: Result<LocationResponse, AppError>)
    requires
        db.wf(),
    ensures
        match r {
            Ok(response) => find(db@.locations, id@) matches Some(row) && response.represents(row),
            Err(e) => {
                &&& find(db@.locations, id@) is None
                &&& e is NotFound
                &&& e.detail() == not_found_text("Location"@, id@)
            },
        },
{
    match db.locations.get(&id) {
        Some(row) => Ok(LocationResponse::from(row)),
        None => Err(AppError::not_found("Location", id.as_str())),
    }
}

/// The locations of the campaign `campaign_id`, by name.
pub fn list_locations_impl(
    db: &Database,
    campaign_id: String,
) -> (r: Result<Vec<LocationResponse>, AppError>)
    requires
        db.wf(),
    ensures
        r matches Ok(out) && LocationResponse::list(out@, owned_by(db@.locations, campaign_id@)),
{
    let rows = sort_rows(db.locations.owned(&campaign_id));
    Ok(LocationResponse::from_all(rows))
}

/// The test that a location lies directly within the location `parent`.
pub open spec fn is_child_of(parent: Seq<char>) -> spec_fn(Location) -> bool {
    |l: Location| l.parent_id matches Some(p) && p@ == parent
}

/// The locations directly within the location `parent_id`, by name.
pub fn get_location_children_impl(db: &Database, parent_id: String) -> (r: Result<
    Vec<LocationResponse>,
    AppError,
>)
    requires
        db.wf(),
    ensures
        r matches Ok(out) && LocationResponse::list(
            out@,
            db@.locations.filter(is_child_of(parent_id@)),
        ),
{
    let all = db.locations.all();
    let mut children: Vec<Location> = Vec::new();
    let mut i: usize = 0;
    let ghost pred = is_child_of(parent_id@);
    proof {
        reveal(Seq::filter);
        assert(all@.take(0) =~= Seq::<Location>::empty());
    }
    while i < all.len()
        invariant
            i <= all.len(),
            pred == is_child_of(parent_id@),
            children@ == all@.take(i as int).filter(pred),
        decreases all.len() - i,
    {
        proof {
            let before = all@.take(i as int);
            assert(all@.take(i + 1) == before.push(all@[i as int]));
            before.lemma_filter_push(all@[i as int], pred);
        }
        let within = match &all[i].parent_id {
            Some(p) => *p == parent_id,
            None => false,
        };
        if within {
            children.push(all[i].copy());
        }
        i += 1;
    }
    proof {
        assert(all@.take(all@.len() as int) == all@);
    }
    Ok(LocationResponse::from_all(sort_rows(children)))
}

/// Applies `patch` to the location `id` at the time `now`.
pub fn change_location(
    db: &mut Database,
    id: &String,
    patch: LocationPatch,
    now: Timestamp,
) -> (r: Result<LocationResponse, AppError>)
    requires
        old(db).wf(),
    ensures
        final(db).wf(),
        match r {
            Ok(response) => {
                &&& find(old(db)@.locations, id@) matches Some(before)
                &&& location_change_refusal(
                    old(db)@,
                    index_of(old(db)@.locations, id@),
                    before.patched(patch, now),
                ) is None
                &&& find(final(db)@.locations, id@) == Some(before.patched(patch, now))
                &&& response.represents(before.patched(patch, now))
                &&& final(db)@ == with_location_replaced(
                    old(db)@,
                    index_of(old(db)@.locations, id@),
                    before.patched(patch, now),
                )
            },
            Err(e) => {
                &&& final(db)@ == old(db)@
                &&& match find(old(db)@.locations, id@) {
                    None => e is NotFound && e.detail() == not_found_text(
                        "Location"@,
                        id@,
                    ),
                    Some(before) => e is Database && Some(e.detail()) == location_change_refusal(
                        old(db)@,
                        index_of(old(db)@.locations, id@),
                        before.patched(patch, now),
                    ),
                }
            },
        },
{
    match db.locations.position(id) {
        None => Err(AppError::not_found("Location", id.as_str())),
        Some(i) => {
            let before = db.locations.row(i).copy();
            proof {
                lemma_find_at(db@.locations, i as int);
                before.lemma_patch_keeps_identity(patch, now);
            }
            let row = before.apply(patch, now);
            if parent_missing(db, &row) {
                return Err(AppError::foreign_key());
            }
            let entry = row.project();
            let response = LocationResponse::from(row.copy());
            proof {
                lemma_update_keys(db@.locations, i as int, row);
                lemma_with_location_replaced_wf(db@, i as int, row);
            }
            db.locations.replace(i, row);
            db.search_index.remove(IndexedKind::Location, id);
            db.search_index.insert(entry);
            Ok(response)
        },
    }
}

/// Changes the location `id`: each argument that is given replaces the
/// stored value, what is left out stays, and the time of the last change
/// becomes the current time.
pub fn update_location_impl(
    db: &mut Database,
    id: String,
    name: Option<String>,
    location_type: Option<String>,
    parent_id: Option<String>,
    description: Option<String>,
    detail_level: Option<i32>,
    gm_notes: Option<String>,
) -> (r: Result<LocationResponse, AppError>)
    requires
        old(db).wf(),
    ensures
        final(db).wf(),
        ({
            let patch = LocationPatch {
                name,
                location_type,
                parent_id,
                description,
                detail_level,
                gm_notes,
            };
            match find(old(db)@.locations, id@) {
                None => {
                    &&& final(db)@ == old(db)@
                    &&& r matches Err(e) && e is NotFound && e.detail() == not_found_text(
                        "Location"@,
                        id@,
                    )
                },
                Some(before) => match location_change_refusal(
                    old(db)@,
                    index_of(old(db)@.locations, id@),
                    before.patched(patch, before.updated_at),
                ) {
                    Some(reason) => {
                        &&& final(db)@ == old(db)@
                        &&& r matches Err(e) && e is Database && e.detail() == reason
                    },
                    None => {
                        &&& r matches Ok(response)
                        &&& find(final(db)@.locations, id@) matches Some(after)
                        &&& after == before.patched(patch, after.updated_at)
                        &&& after.updated_at.is_clock_time()
                        &&& response.represents(after)
                        &&& final(db)@ == with_location_replaced(
                            old(db)@,
                            index_of(old(db)@.locations, id@),
                            after,
                        )
                    },
                },
            }
        }),
{
    let patch = LocationPatch {
        name,
        location_type,
        parent_id,
        description,
        detail_level,
        gm_notes,
    };
    let now = Timestamp::now();
    change_location(db, &id, patch, now)
}

/// Removes the location `id`; tells whether there was one. The locations
/// that lay within it stay, without a parent.
pub fn delete_location_impl(db: &mut Database, id: String) -> (r: Result<bool, AppError>)
    requires
        old(db).wf(),
    ensures
        final(db).wf(),
        r matches Ok(deleted) && deleted == has_key(old(db)@.locations, id@),
        final(db)@ == without_location(old(db)@, id@),
{
    proof {
        lemma_without_location_wf(db@, id@);
    }
    let deleted = db.locations.remove_key(&id);
    detach_locations(&mut db.locations);
    db.search_index.remove(IndexedKind::Location, &id);
    Ok(deleted)
}

} // verus!
