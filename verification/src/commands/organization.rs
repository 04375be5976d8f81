//! Organizations: storing, reading, listing, changing and removing them.

use crate::clock::Timestamp;
use crate::commands::validation::CreateOrganizationInput;
use crate::db::{Database, Snapshot};
use crate::entity::organization::{Organization, OrganizationPatch};
use crate::error::{foreign_key_text, is_summary, not_found_text, unique_text, AppError};
use crate::ident::{is_random_uuid_text, new_id};
use crate::search_index::{
    lemma_mirror_insert, lemma_mirror_remove, lemma_mirror_replace, projection, without_entry,
    Indexed, IndexedKind,
};
use crate::table::{
    find, has_key, has_other_key, index_of, lemma_filter_keys, lemma_find_at, lemma_push_keys,
    lemma_update_keys, listed, owned_by, sort_rows, without_key, Row,
};
use vstd::prelude::*;
use vstd::string::*;

verus! {

/// An organization as it is handed to the caller.
#[derive(Debug)]
pub struct OrganizationResponse {
    pub id: String,
    pub campaign_id: String,
    pub name: String,
    pub org_type: String,
    pub description: Option<String>,
    pub goals: Option<String>,
    pub resources: Option<String>,
    pub reputation: Option<String>,
    pub secrets: Option<String>,
    pub is_active: bool,
    pub created_at: String,
    pub updated_at: String,
}

impl OrganizationResponse {
    /// Whether the response shows `row`: every field as stored, times and
    /// dates as their display texts.
    pub open spec fn represents(self, row: Organization) -> bool {
        &&& self.id == row.id
        &&& self.campaign_id == row.campaign_id
        &&& self.name == row.name
        &&& self.org_type == row.org_type
        &&& self.description == row.description
        &&& self.goals == row.goals
        &&& self.resources == row.resources
        &&& self.reputation == row.reputation
        &&& self.secrets == row.secrets
        &&& self.is_active == row.is_active
        &&& self.created_at@ == row.created_at.text()
        &&& self.updated_at@ == row.updated_at.text()
    }

    /// Whether the responses show `rows`, one for one and in order.
    pub open spec fn represent_all(
        out: Seq<OrganizationResponse>,
        rows: Seq<Organization>,
    ) -> bool {
        out.len() == rows.len() && forall|i: int|
            0 <= i < out.len() ==> (#[trigger] out[i]).represents(rows[i])
    }

    /// Whether the responses list `of`: they show its rows in listing order,
    /// rows that may stand either way in the order in which they are stored.
    pub open spec fn list(out: Seq<OrganizationResponse>, of: Seq<Organization>) -> bool {
        OrganizationResponse::represent_all(out, listed(of))
    }

    /// The response that shows `model`.
    pub fn from(model: Organization) -> (r: OrganizationResponse)
        ensures
            r.represents(model),
    {
        let created_at = model.created_at.to_string();
        let updated_at = model.updated_at.to_string();
        OrganizationResponse {
            id: model.id,
            campaign_id: model.campaign_id,
            name: model.name,
            org_type: model.org_type,
            description: model.description,
            goals: model.goals,
            resources: model.resources,
            reputation: model.reputation,
            secrets: model.secrets,
            is_active: model.is_active,
            created_at,
            updated_at,
        }
    }

    /// The responses that show `rows`, one for one and in order.
    pub fn from_all(rows: Vec<Organization>) -> (out: Vec<OrganizationResponse>)
        ensures
            OrganizationResponse::represent_all(out@, rows@),
    {
        let mut out: Vec<OrganizationResponse> = Vec::new();
        let mut i: usize = 0;
        while i < rows.len()
            invariant
                i <= rows.len(),
                out@.len() == i,
                forall|k: int| 0 <= k < i ==> (#[trigger] out@[k]).represents(rows@[k]),
            decreases rows.len() - i,
        {
            out.push(OrganizationResponse::from(rows[i].copy()));
            i += 1;
        }
        out
    }
}

/// The store with one more organization and its index entry.
pub open spec fn with_organization(s: Snapshot, row: Organization) -> Snapshot {
    Snapshot {
        organizations: s.organizations.push(row),
        search_index: s.search_index.push(projection(row)),
        ..s
    }
}

/// The store with the organization at position `i` replaced by `row`, and its
/// index entry by that of `row`.
pub open spec fn with_organization_replaced(s: Snapshot, i: int, row: Organization) -> Snapshot {
    Snapshot {
        organizations: s.organizations.update(i, row),
        search_index: without_entry(s.search_index, IndexedKind::Organization, row.key()).push(
            projection(row),
        ),
        ..s
    }
}

/// Why the store refuses to take `row`, if it does: the identifier is
/// taken, or a rule of the store would be broken.
pub open spec fn organization_refusal(s: Snapshot, row: Organization) -> Option<Seq<char>> {
    if has_key(s.organizations, row.key()) {
        Some(unique_text("organizations.id"@))
    } else if !has_key(s.campaigns, row.owner()) {
        Some(foreign_key_text())
    } else {
        None
    }
}

/// Storing an organization that the store does not refuse keeps the rules of the
/// store.
pub proof fn lemma_with_organization_wf(s: Snapshot, row: Organization)
    requires
        s.wf(),
        organization_refusal(s, row) is None,
    ensures
        with_organization(s, row).wf(),
{
    lemma_push_keys(s.organizations, row);
    lemma_mirror_insert(s.search_index, s.organizations, row);
    s.lemma_entry_added(s.search_index, projection(row));
}

/// Replacing an organization by one of the same identity and campaign keeps the
/// rules of the store.
pub proof fn lemma_with_organization_replaced_wf(s: Snapshot, i: int, row: Organization)
    requires
        s.wf(),
        0 <= i < s.organizations.len(),
        row.key() == s.organizations[i].key(),
        row.owner() == s.organizations[i].owner(),
    ensures
        with_organization_replaced(s, i, row).wf(),
{
    lemma_update_keys(s.organizations, i, row);
    lemma_mirror_replace(s.search_index, s.organizations, i, row);
    s.lemma_entry_removed(IndexedKind::Organization, row.key());
    s.lemma_entry_added(
        without_entry(s.search_index, IndexedKind::Organization, row.key()),
        projection(row),
    );
    let after = s.organizations.update(i, row);
    assert forall|k: int| 0 <= k < after.len() implies has_key(
        s.campaigns,
        #[trigger] after[k].owner(),
    ) by {
        assert(after[k].owner() == s.organizations[k].owner());
    }
}

/// The store without the organization `id` and without its index entry.
pub open spec fn without_organization(s: Snapshot, id: Seq<char>) -> Snapshot {
    Snapshot {
        organizations: without_key(s.organizations, id),
        search_index: without_entry(s.search_index, IndexedKind::Organization, id),
        ..s
    }
}

/// Removing an organization keeps the rules of the store.
pub proof fn lemma_without_organization_wf(s: Snapshot, id: Seq<char>)
    requires
        s.wf(),
    ensures
        without_organization(s, id).wf(),
{
    lemma_filter_keys(s.organizations, has_other_key::<Organization>(id));
    lemma_mirror_remove(s.search_index, s.organizations, id);
    s.lemma_entry_removed(IndexedKind::Organization, id);
    let fewer = without_key(s.organizations, id);
    assert forall|k: int| 0 <= k < fewer.len() implies has_key(
        s.campaigns,
        #[trigger] fewer[k].owner(),
    ) by {
        assert(s.organizations.contains(fewer[k]));
    }
}

/// Stores `row`, unless the store refuses it.
pub fn insert_organization(db: &mut Database, row: Organization) -> (r: Result<(), AppError>)
    requires
        old(db).wf(),
    ensures
        final(db).wf(),
        match r {
            Ok(()) => {
                &&& organization_refusal(old(db)@, row) is None
                &&& final(db)@ == with_organization(old(db)@, row)
            },
            Err(e) => {
                &&& e is Database
                &&& Some(e.detail()) == organization_refusal(old(db)@, row)
                &&& final(db)@ == old(db)@
            },
        },
{
    if db.organizations.contains(&row.id) {
        return Err(AppError::unique("organizations.id"));
    }
    if !db.campaigns.contains(&row.campaign_id) {
        return Err(AppError::foreign_key());
    }
    let entry = row.project();
    proof {
        lemma_with_organization_wf(db@, row);
    }
    db.organizations.insert(row);
    db.search_index.insert(entry);
    Ok(())
}

/// What creating an organization from `input` comes to: a violated rule of the input is
/// reported and nothing is stored; otherwise the row is stored under a fresh
/// identifier unless the store refuses it.
pub open spec fn organization_creation(
    before: Snapshot,
    after: Snapshot,
    input: CreateOrganizationInput,
    r: Result<OrganizationResponse, AppError>,
) -> bool {
    match r {
        Ok(response) => {
            &&& input.meets_rules()
            &&& find(after.organizations, response.id@) matches Some(row)
            &&& row == Organization::created(
                row.id,
                row.created_at,
                input.campaign_id,
                input.name,
                input.org_type,
                input.description,
                input.goals,
                input.resources,
            )
            &&& is_random_uuid_text(row.id@)
            &&& row.created_at.is_clock_time()
            &&& organization_refusal(before, row) is None
            &&& response.represents(row)
            &&& after == with_organization(before, row)
        },
        Err(e) => {
            &&& after == before
            &&& if !input.meets_rules() {
                e is Validation && is_summary(e.detail(), input.violations())
            } else {
                e is Database && exists|row: Organization|
                    {
                        &&& #[trigger] organization_refusal(before, row) == Some(e.detail())
                        &&& row == Organization::created(
                            row.id,
                            row.created_at,
                            input.campaign_id,
                            input.name,
                            input.org_type,
                            input.description,
                            input.goals,
                            input.resources,
                        )
                    }
            }
        },
    }
}

/// Creates an organization from `input`, once the input meets its rules:
/// active, with the current time as the time of its making and of its last
/// change.
pub fn create_organization_impl(
    db: &mut Database,
    input: CreateOrganizationInput,
) -> (r: Result<OrganizationResponse, AppError>)
    requires
        old(db).wf(),
    ensures
        final(db).wf(),
        organization_creation(old(db)@, final(db)@, input, r),
{
    match input.validate() {
        Ok(()) => {},
        Err(errors) => {
            return Err(AppError::from(errors));
        },
    }
    let id = new_id();
    let now = Timestamp::now();
    let row = Organization::new(
        id,
        now,
        input.campaign_id,
        input.name,
        input.org_type,
        input.description,
        input.goals,
        input.resources,
    );
    let response = OrganizationResponse::from(row.copy());
    let ghost made = row;
    proof {
        lemma_push_keys(db@.organizations, row);
    }
    match insert_organization(db, row) {
        Ok(()) => Ok(response),
        Err(e) => {
            assert(organization_refusal(old(db)@, made) == Some(e.detail()));
            Err(e)
        },
    }
}

/// The input that the arguments of a creation describe: what is left out
/// takes its default.
pub fn organization_input(
    campaign_id: String,
    name: String,
    org_type: Option<String>,
    description: Option<String>,
    goals: Option<String>,
    resources: Option<String>,
) -> (input: CreateOrganizationInput)
    ensures
        input.campaign_id == campaign_id,
        input.name == name,
        input.org_type@ == match org_type {
            Some(t) => t@,
            None => "other"@,
        },
        input.description == description,
        input.goals == goals,
        input.resources == resources,
{
    CreateOrganizationInput {
        campaign_id,
        name,
        org_type: match org_type {
            Some(t) => t,
            None => String::from_str("other"),
        },
        description,
        goals,
        resources,
    }
}

/// Creates an organization of the campaign `campaign_id`, of the type `other`
/// unless `org_type` says otherwise.
pub fn create_organization(
    db: &mut Database,
    campaign_id: String,
    name: String,
    org_type: Option<String>,
    description: Option<String>,
    goals: Option<String>,
    resources: Option<String>,
) -> (r: Result<OrganizationResponse, AppError>)
    requires
        old(db).wf(),
    ensures
        final(db).wf(),
        exists|input: CreateOrganizationInput|
            {
                &&& input.campaign_id == campaign_id
                &&& input.name == name
                &&& input.org_type@ == match org_type {
                    Some(t) => t@,
                    None => "other"@,
                }
                &&& input.description == description
                &&& input.goals == goals
                &&& input.resources == resources
                &&& #[trigger] organization_creation(old(db)@, final(db)@, input, r)
            },
{
    let input = organization_input(campaign_id, name, org_type, description, goals, resources);
    create_organization_impl(db, input)
}

/// The organization `id`.
pub fn get_organization(db: &Database, id: String) -> (r: Result<OrganizationResponse, AppError>)
    requires
        db.wf(),
    ensures
        match r {
            Ok(response) => find(db@.organizations, id@) matches Some(row) && response.represents(
                row,
            ),
            Err(e) => {
                &&& find(db@.organizations, id@) is None
                &&& e is NotFound
                &&& e.detail() == not_found_text("Organization"@, id@)
            },
        },
{
    match db.organizations.get(&id) {
        Some(row) => Ok(OrganizationResponse::from(row)),
        None => Err(AppError::not_found("Organization", id.as_str())),
    }
}

/// The organizations of the campaign `campaign_id`, by name.
pub fn list_organizations(
    db: &Database,
    campaign_id: String,
) -> (r: Result<Vec<OrganizationResponse>, AppError>)
    requires
        db.wf(),
    ensures
        r matches Ok(out) && OrganizationResponse::list(
            out@,
            owned_by(db@.organizations, campaign_id@),
        ),
{
    let rows = sort_rows(db.organizations.owned(&campaign_id));
    Ok(OrganizationResponse::from_all(rows))
}

/// Applies `patch` to the organization `id` at the time `now`.
pub fn change_organization(
    db: &mut Database,
    id: &String,
    patch: OrganizationPatch,
    now: Timestamp,
) -> (r: Result<OrganizationResponse, AppError>)
    requires
        old(db).wf(),
    ensures
        final(db).wf(),
        match r {
            Ok(response) => {
                &&& find(old(db)@.organizations, id@) matches Some(before)
                &&& find(final(db)@.organizations, id@) == Some(before.patched(patch, now))
                &&& response.represents(before.patched(patch, now))
                &&& final(db)@ == with_organization_replaced(
                    old(db)@,
                    index_of(old(db)@.organizations, id@),
                    before.patched(patch, now),
                )
            },
            Err(e) => {
                &&& final(db)@ == old(db)@
                &&& match find(old(db)@.organizations, id@) {
                    None => e is NotFound && e.detail() == not_found_text(
                        "Organization"@,
                        id@,
                    ),
                    Some(_) => false,
                }
            },
        },
{
    match db.organizations.position(id) {
        None => Err(AppError::not_found("Organization", id.as_str())),
        Some(i) => {
            let before = db.organizations.row(i).copy();
            proof {
                lemma_find_at(db@.organizations, i as int);
                before.lemma_patch_keeps_identity(patch, now);
            }
            let row = before.apply(patch, now);
            let entry = row.project();
            let response = OrganizationResponse::from(row.copy());
            proof {
                lemma_update_keys(db@.organizations, i as int, row);
                lemma_with_organization_replaced_wf(db@, i as int, row);
            }
            db.organizations.replace(i, row);
            db.search_index.remove(IndexedKind::Organization, id);
            db.search_index.insert(entry);
            Ok(response)
        },
    }
}

/// Changes the organization `id`: each argument that is given replaces the
/// stored value, what is left out stays, and the time of the last change
/// becomes the current time.
pub fn update_organization(
    db: &mut Database,
    id: String,
    name: Option<String>,
    org_type: Option<String>,
    description: Option<String>,
    goals: Option<String>,
    resources: Option<String>,
    reputation: Option<String>,
    secrets: Option<String>,
    is_active: Option<bool>,
) -> (r: Result<OrganizationResponse, AppError>)
    requires
        old(db).wf(),
    ensures
        final(db).wf(),
        ({
            let patch = OrganizationPatch {
                name,
                org_type,
                description,
                goals,
                resources,
                reputation,
                secrets,
                is_active,
            };
            match find(old(db)@.organizations, id@) {
                None => {
                    &&& final(db)@ == old(db)@
                    &&& r matches Err(e) && e is NotFound && e.detail() == not_found_text(
                        "Organization"@,
                        id@,
                    )
                },
                Some(before) => {
                    &&& r matches Ok(response)
                    &&& find(final(db)@.organizations, id@) matches Some(after)
                    &&& after == before.patched(patch, after.updated_at)
                    &&& after.updated_at.is_clock_time()
                    &&& response.represents(after)
                    &&& final(db)@ == with_organization_replaced(
                        old(db)@,
                        index_of(old(db)@.organizations, id@),
                        after,
                    )
                },
            }
        }),
{
    let patch = OrganizationPatch {
        name,
        org_type,
        description,
        goals,
        resources,
        reputation,
        secrets,
        is_active,
    };
    let now = Timestamp::now();
    change_organization(db, &id, patch, now)
}

/// Removes the organization `id`; tells whether there was one.
pub fn delete_organization(db: &mut Database, id: String) -> (r: Result<bool, AppError>)
    requires
        old(db).wf(),
    ensures
        final(db).wf(),
        r matches Ok(deleted) && deleted == has_key(old(db)@.organizations, id@),
        final(db)@ == without_organization(old(db)@, id@),
{
    proof {
        lemma_without_organization_wf(db@, id@);
    }
    let deleted = db.organizations.remove_key(&id);
    db.search_index.remove(IndexedKind::Organization, &id);
    Ok(deleted)
}

} // verus!
