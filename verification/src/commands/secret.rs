//! Secrets: storing, reading, listing, changing and removing them.

use crate::clock::Timestamp;
use crate::db::{Database, Snapshot};
use crate::entity::secret::{Secret, SecretPatch};
use crate::error::{foreign_key_text, not_found_text, unique_text, AppError};
use crate::ident::{is_random_uuid_text, new_id};
use crate::table::{
    find, has_key, has_other_key, index_of, lemma_filter_keys, lemma_find_at, lemma_push_keys,
    lemma_update_keys, listed, owned_by, sort_rows, without_key, Row,
};
use vstd::prelude::*;

verus! {

/// A secret as it is handed to the caller.
#[derive(Debug)]
pub struct SecretResponse {
    pub id: String,
    pub campaign_id: String,
    pub title: String,
    pub content: String,
    pub related_entity_type: Option<String>,
    pub related_entity_id: Option<String>,
    pub known_by: Option<String>,
    pub revealed: bool,
    pub revealed_in_session: Option<i32>,
    pub created_at: String,
    pub updated_at: String,
}

impl SecretResponse {
    /// Whether the response shows `row`: every field as stored, times and
    /// dates as their display texts.
    pub open spec fn represents(self, row: Secret) -> bool {
        &&& self.id == row.id
        &&& self.campaign_id == row.campaign_id
        &&& self.title == row.title
        &&& self.content == row.content
        &&& self.related_entity_type == row.related_entity_type
        &&& self.related_entity_id == row.related_entity_id
        &&& self.known_by == row.known_by
        &&& self.revealed == row.revealed
        &&& self.revealed_in_session == row.revealed_in_session
        &&& self.created_at@ == row.created_at.text()
        &&& self.updated_at@ == row.updated_at.text()
    }

    /// Whether the responses show `rows`, one for one and in order.
    pub open spec fn represent_all(out: Seq<SecretResponse>, rows: Seq<Secret>) -> bool {
        out.len() == rows.len() && forall|i: int|
            0 <= i < out.len() ==> (#[trigger] out[i]).represents(rows[i])
    }

    /// Whether the responses list `of`: they show its rows in listing order,
    /// rows that may stand either way in the order in which they are stored.
    pub open spec fn list(out: Seq<SecretResponse>, of: Seq<Secret>) -> bool {
        SecretResponse::represent_all(out, listed(of))
    }

    /// The response that shows `model`.
    pub fn from(model: Secret) -> (r: SecretResponse)
        ensures
            r.represents(model),
    {
        let created_at = model.created_at.to_string();
        let updated_at = model.updated_at.to_string();
        SecretResponse {
            id: model.id,
            campaign_id: model.campaign_id,
            title: model.title,
            content: model.content,
            related_entity_type: model.related_entity_type,
            related_entity_id: model.related_entity_id,
            known_by: model.known_by,
            revealed: model.revealed,
            revealed_in_session: model.revealed_in_session,
            created_at,
            updated_at,
        }
    }

    /// The responses that show `rows`, one for one and in order.
    pub fn from_all(rows: Vec<Secret>) -> (out: Vec<SecretResponse>)
        ensures
            SecretResponse::represent_all(out@, rows@),
    {
        let mut out: Vec<SecretResponse> = Vec::new();
        let mut i: usize = 0;
        while i < rows.len()
            invariant
                i <= rows.len(),
                out@.len() == i,
                forall|k: int| 0 <= k < i ==> (#[trigger] out@[k]).represents(rows@[k]),
            decreases rows.len() - i,
        {
            out.push(SecretResponse::from(rows[i].copy()));
            i += 1;
        }
        out
    }
}

/// The store with one more secret.
pub open spec fn with_secret(s: Snapshot, row: Secret) -> Snapshot {
    Snapshot {
        secrets: s.secrets.push(row),
        ..s
    }
}

/// The store with the secret at position `i` replaced by `row`.
pub open spec fn with_secret_replaced(s: Snapshot, i: int, row: Secret) -> Snapshot {
    Snapshot {
        secrets: s.secrets.update(i, row),
        ..s
    }
}

/// Why the store refuses to take `row`, if it does: the identifier is
/// taken, or a rule of the store would be broken.
pub open spec fn secret_refusal(s: Snapshot, row: Secret) -> Option<Seq<char>> {
    if has_key(s.secrets, row.key()) {
        Some(unique_text("secrets.id"@))
    } else if !has_key(s.campaigns, row.owner()) {
        Some(foreign_key_text())
    } else {
        None
    }
}

/// Storing a secret that the store does not refuse keeps the rules of the
/// store.
pub proof fn lemma_with_secret_wf(s: Snapshot, row: Secret)
    requires
        s.wf(),
        secret_refusal(s, row) is None,
    ensures
        with_secret(s, row).wf(),
{
    lemma_push_keys(s.secrets, row);
}

/// Replacing a secret by one of the same identity and campaign keeps the
/// rules of the store.
pub proof fn lemma_with_secret_replaced_wf(s: Snapshot, i: int, row: Secret)
    requires
        s.wf(),
        0 <= i < s.secrets.len(),
        row.key() == s.secrets[i].key(),
        row.owner() == s.secrets[i].owner(),
    ensures
        with_secret_replaced(s, i, row).wf(),
{
    lemma_update_keys(s.secrets, i, row);
    let after = s.secrets.update(i, row);
    assert forall|k: int| 0 <= k < after.len() implies has_key(
        s.campaigns,
        #[trigger] after[k].owner(),
    ) by {
        assert(after[k].owner() == s.secrets[k].owner());
    }
}

/// The store without the secret `id`.
pub open spec fn without_secret(s: Snapshot, id: Seq<char>) -> Snapshot {
    Snapshot {
        secrets: without_key(s.secrets, id),
        ..s
    }
}

/// Removing a secret keeps the rules of the store.
pub proof fn lemma_without_secret_wf(s: Snapshot, id: Seq<char>)
    requires
        s.wf(),
    ensures
        without_secret(s, id).wf(),
{
    lemma_filter_keys(s.secrets, has_other_key::<Secret>(id));
    let fewer = without_key(s.secrets, id);
    assert forall|k: int| 0 <= k < fewer.len() implies has_key(
        s.campaigns,
        #[trigger] fewer[k].owner(),
    ) by {
        assert(s.secrets.contains(fewer[k]));
    }
}

/// Stores `row`, unless the store refuses it.
pub fn insert_secret(db: &mut Database, row: Secret) -> (r: Result<(), AppError>)
    requires
        old(db).wf(),
    ensures
        final(db).wf(),
        match r {
            Ok(()) => {
                &&& secret_refusal(old(db)@, row) is None
                &&& final(db)@ == with_secret(old(db)@, row)
            },
            Err(e) => {
                &&& e is Database
                &&& Some(e.detail()) == secret_refusal(old(db)@, row)
                &&& final(db)@ == old(db)@
            },
        },
{
    if db.secrets.contains(&row.id) {
        return Err(AppError::unique("secrets.id"));
    }
    if !db.campaigns.contains(&row.campaign_id) {
        return Err(AppError::foreign_key());
    }
    proof {
        lemma_with_secret_wf(db@, row);
    }
    db.secrets.insert(row);
    Ok(())
}

/// Creates a secret of the campaign `campaign_id` under a fresh identifier:
/// not revealed, known by nobody, with the current time as the time of its
/// making and of its last change.
pub fn create_secret(
    db: &mut Database,
    campaign_id: String,
    title: String,
    content: String,
    related_entity_type: Option<String>,
    related_entity_id: Option<String>,
) -> (r: Result<SecretResponse, AppError>)
    requires
        old(db).wf(),
    ensures
        final(db).wf(),
        match r {
            Ok(response) => {
                &&& find(final(db)@.secrets, response.id@) matches Some(row)
                &&& row == Secret::created(
                    row.id,
                    row.created_at,
                    campaign_id,
                    title,
                    content,
                    related_entity_type,
                    related_entity_id,
                )
                &&& is_random_uuid_text(row.id@)
                &&& row.created_at.is_clock_time()
                &&& secret_refusal(old(db)@, row) is None
                &&& response.represents(row)
                &&& final(db)@ == with_secret(old(db)@, row)
            },
            Err(e) => {
                &&& final(db)@ == old(db)@
                &&& e is Database
                &&& exists|row: Secret|
                    {
                        &&& #[trigger] secret_refusal(old(db)@, row) == Some(e.detail())
                        &&& row == Secret::created(
                            row.id,
                            row.created_at,
                            campaign_id,
                            title,
                            content,
                            related_entity_type,
                            related_entity_id,
                        )
                    }
            },
        },
{
    let id = new_id();
    let now = Timestamp::now();
    let row = Secret::new(
        id,
        now,
        campaign_id,
        title,
        content,
        related_entity_type,
        related_entity_id,
    );
    let response = SecretResponse::from(row.copy());
    let ghost made = row;
    proof {
        lemma_push_keys(db@.secrets, row);
    }
    match insert_secret(db, row) {
        Ok(()) => Ok(response),
        Err(e) => {
            assert(secret_refusal(old(db)@, made) == Some(e.detail()));
            Err(e)
        },
    }
}

/// The secret `id`.
pub fn get_secret(db: &Database, id: String) -> (r: Result<SecretResponse, AppError>)
    requires
        db.wf(),
    ensures
        match r {
            Ok(response) => find(db@.secrets, id@) matches Some(row) && response.represents(row),
            Err(e) => {
                &&& find(db@.secrets, id@) is None
                &&& e is NotFound
                &&& e.detail() == not_found_text("Secret"@, id@)
            },
        },
{
    match db.secrets.get(&id) {
        Some(row) => Ok(SecretResponse::from(row)),
        None => Err(AppError::not_found("Secret", id.as_str())),
    }
}

/// The secrets of the campaign `campaign_id`, the newest first.
pub fn list_secrets(
    db: &Database,
    campaign_id: String,
) -> (r: Result<Vec<SecretResponse>, AppError>)
    requires
        db.wf(),
    ensures
        r matches Ok(out) && SecretResponse::list(out@, owned_by(db@.secrets, campaign_id@)),
{
    let rows = sort_rows(db.secrets.owned(&campaign_id));
    Ok(SecretResponse::from_all(rows))
}

/// Applies `patch` to the secret `id` at the time `now`.
pub fn change_secret(
    db: &mut Database,
    id: &String,
    patch: SecretPatch,
    now: Timestamp,
) -> (r: Result<SecretResponse, AppError>)
    requires
        old(db).wf(),
    ensures
        final(db).wf(),
        match r {
            Ok(response) => {
                &&& find(old(db)@.secrets, id@) matches Some(before)
                &&& find(final(db)@.secrets, id@) == Some(before.patched(patch, now))
                &&& response.represents(before.patched(patch, now))
                &&& final(db)@ == with_secret_replaced(
                    old(db)@,
                    index_of(old(db)@.secrets, id@),
                    before.patched(patch, now),
                )
            },
            Err(e) => {
                &&& final(db)@ == old(db)@
                &&& match find(old(db)@.secrets, id@) {
                    None => e is NotFound && e.detail() == not_found_text(
                        "Secret"@,
                        id@,
                    ),
                    Some(_) => false,
                }
            },
        },
{
    match db.secrets.position(id) {
        None => Err(AppError::not_found("Secret", id.as_str())),
        Some(i) => {
            let before = db.secrets.row(i).copy();
            proof {
                lemma_find_at(db@.secrets, i as int);
                before.lemma_patch_keeps_identity(patch, now);
            }
            let row = before.apply(patch, now);
            let response = SecretResponse::from(row.copy());
            proof {
                lemma_update_keys(db@.secrets, i as int, row);
                lemma_with_secret_replaced_wf(db@, i as int, row);
            }
            db.secrets.replace(i, row);
            Ok(response)
        },
    }
}

/// Changes the secret `id`: each argument that is given replaces the
/// stored value, what is left out stays, and the time of the last change
/// becomes the current time.
pub fn update_secret(
    db: &mut Database,
    id: String,
    title: Option<String>,
    content: Option<String>,
    related_entity_type: Option<String>,
    related_entity_id: Option<String>,
    known_by: Option<String>,
    revealed: Option<bool>,
    revealed_in_session: Option<i32>,
) -> (r: Result<SecretResponse, AppError>)
    requires
        old(db).wf(),
    ensures
        final(db).wf(),
        ({
            let patch = SecretPatch {
                title,
                content,
                related_entity_type,
                related_entity_id,
                known_by,
                revealed,
                revealed_in_session,
            };
            match find(old(db)@.secrets, id@) {
                None => {
                    &&& final(db)@ == old(db)@
                    &&& r matches Err(e) && e is NotFound && e.detail() == not_found_text(
                        "Secret"@,
                        id@,
                    )
                },
                Some(before) => {
                    &&& r matches Ok(response)
                    &&& find(final(db)@.secrets, id@) matches Some(after)
                    &&& after == before.patched(patch, after.updated_at)
                    &&& after.updated_at.is_clock_time()
                    &&& response.represents(after)
                    &&& final(db)@ == with_secret_replaced(
                        old(db)@,
                        index_of(old(db)@.secrets, id@),
                        after,
                    )
                },
            }
        }),
{
    let patch = SecretPatch {
        title,
        content,
        related_entity_type,
        related_entity_id,
        known_by,
        revealed,
        revealed_in_session,
    };
    let now = Timestamp::now();
    change_secret(db, &id, patch, now)
}

/// Removes the secret `id`; tells whether there was one.
pub fn delete_secret(db: &mut Database, id: String) -> (r: Result<bool, AppError>)
    requires
        old(db).wf(),
    ensures
        final(db).wf(),
        r matches Ok(deleted) && deleted == has_key(old(db)@.secrets, id@),
        final(db)@ == without_secret(old(db)@, id@),
{
    proof {
        lemma_without_secret_wf(db@, id@);
    }
    let deleted = db.secrets.remove_key(&id);
    Ok(deleted)
}

} // verus!
