//! Tags and their attachments: storing, reading, listing and removing tags,
//! attaching them to entities and taking them off.

use crate::clock::Timestamp;
use crate::db::{tag_names_distinct, Database, Snapshot};
use crate::entity::entity_tag::EntityTag;
use crate::entity::tag::Tag;
use crate::error::{foreign_key_text, not_found_text, unique_text, AppError};
use crate::ident::{is_random_uuid_text, new_id};
use crate::links::{attached, lemma_attached, lemma_attachments_filter, retain_attached};
use crate::table::{
    find, has_key, has_other_key, keys_distinct, lemma_filter_keys, lemma_push_keys, listed,
    owned_by, sort_rows, without_key, Row,
};
use vstd::prelude::*;

verus! {

/// A tag as it is handed to the caller.
#[derive(Debug)]
pub struct TagResponse {
    pub id: String,
    pub campaign_id: String,
    pub name: String,
    pub color: Option<String>,
    pub created_at: String,
}

impl TagResponse {
    /// Whether the response shows `row`: every field as stored, times and
    /// dates as their display texts.
    pub open spec fn represents(self, row: Tag) -> bool {
        &&& self.id == row.id
        &&& self.campaign_id == row.campaign_id
        &&& self.name == row.name
        &&& self.color == row.color
        &&& self.created_at@ == row.created_at.text()
    }

    /// Whether the responses show `rows`, one for one and in order.
    pub open spec fn represent_all(out: Seq<TagResponse>, rows: Seq<Tag>) -> bool {
        out.len() == rows.len() && forall|i: int|
            0 <= i < out.len() ==> (#[trigger] out[i]).represents(rows[i])
    }

    /// Whether the responses list `of`: they show its rows in listing order,
    /// rows that may stand either way in the order in which they are stored.
    pub open spec fn list(out: Seq<TagResponse>, of: Seq<Tag>) -> bool {
        TagResponse::represent_all(out, listed(of))
    }

    /// The response that shows `model`.
    pub fn from(model: Tag) -> (r: TagResponse)
        ensures
            r.represents(model),
    {
        let created_at = model.created_at.to_string();
        TagResponse {
            id: model.id,
            campaign_id: model.campaign_id,
            name: model.name,
            color: model.color,
            created_at,
        }
    }

    /// The responses that show `rows`, one for one and in order.
    pub fn from_all(rows: Vec<Tag>) -> (out: Vec<TagResponse>)
        ensures
            TagResponse::represent_all(out@, rows@),
    {
        let mut out: Vec<TagResponse> = Vec::new();
        let mut i: usize = 0;
        while i < rows.len()
            invariant
                i <= rows.len(),
                out@.len() == i,
                forall|k: int| 0 <= k < i ==> (#[trigger] out@[k]).represents(rows@[k]),
            decreases rows.len() - i,
        {
            out.push(TagResponse::from(rows[i].copy()));
            i += 1;
        }
        out
    }
}

/// The store with one more tag.
pub open spec fn with_tag(s: Snapshot, row: Tag) -> Snapshot {
    Snapshot {
        tags: s.tags.push(row),
        ..s
    }
}

/// Why the store refuses to take `row`, if it does: the identifier is
/// taken, or a rule of the store would be broken.
pub open spec fn tag_refusal(s: Snapshot, row: Tag) -> Option<Seq<char>> {
    if has_key(s.tags, row.key()) {
        Some(unique_text("tags.id"@))
    } else if name_taken(s.tags, row.campaign_id@, row.name@) {
        Some(unique_text("tags.campaign_id, tags.name"@))
    } else if !has_key(s.campaigns, row.owner()) {
        Some(foreign_key_text())
    } else {
        None
    }
}

/// Storing a tag that the store does not refuse keeps the rules of the
/// store.
pub proof fn lemma_with_tag_wf(s: Snapshot, row: Tag)
    requires
        s.wf(),
        tag_refusal(s, row) is None,
    ensures
        with_tag(s, row).wf(),
{
    lemma_push_keys(s.tags, row);
    let tags = s.tags.push(row);
    assert forall|a: int, b: int|
        #![trigger tags[a], tags[b]]
        0 <= a < tags.len() && 0 <= b < tags.len() && a != b implies !(tags[a].campaign_id@
        == tags[b].campaign_id@ && tags[a].name@ == tags[b].name@) by {
        if a < s.tags.len() && b < s.tags.len() {
            assert(tags[a] == s.tags[a] && tags[b] == s.tags[b]);
        } else if a < s.tags.len() {
            assert(tags[a] == s.tags[a]);
        } else {
            assert(tags[b] == s.tags[b]);
        }
    }
}

/// The store without the tag `id`: the tag and its attachments are gone,
/// the entities it was attached to are as they were.
pub open spec fn without_tag(s: Snapshot, id: Seq<char>) -> Snapshot {
    Snapshot {
        tags: without_key(s.tags, id),
        entity_tags: attached(s.entity_tags, without_key(s.tags, id)),
        ..s
    }
}

/// A filter leaves no two tags of one campaign with the same name.
pub proof fn lemma_tag_names_filter(tags: Seq<Tag>, pred: spec_fn(Tag) -> bool)
    requires
        keys_distinct(tags),
        tag_names_distinct(tags),
    ensures
        tag_names_distinct(tags.filter(pred)),
{
    let fewer = tags.filter(pred);
    lemma_filter_keys(tags, pred);
    assert forall|a: int, b: int|
        #![trigger fewer[a], fewer[b]]
        0 <= a < fewer.len() && 0 <= b < fewer.len() && a != b implies !(fewer[a].campaign_id@
        == fewer[b].campaign_id@ && fewer[a].name@ == fewer[b].name@) by {
        assert(tags.contains(fewer[a]) && tags.contains(fewer[b]));
        let p = choose|p: int| 0 <= p < tags.len() && tags[p] == fewer[a];
        let q = choose|q: int| 0 <= q < tags.len() && tags[q] == fewer[b];
        assert(fewer[a].key() != fewer[b].key());
        assert(tags[p] == fewer[a] && tags[q] == fewer[b]);
    }
}

/// Removing a tag keeps the rules of the store.
pub proof fn lemma_without_tag_wf(s: Snapshot, id: Seq<char>)
    requires
        s.wf(),
    ensures
        without_tag(s, id).wf(),
{
    let tags = without_key(s.tags, id);
    lemma_filter_keys(s.tags, has_other_key::<Tag>(id));
    lemma_tag_names_filter(s.tags, has_other_key::<Tag>(id));
    assert forall|k: int| 0 <= k < tags.len() implies has_key(
        s.campaigns,
        #[trigger] tags[k].owner(),
    ) by {
        assert(s.tags.contains(tags[k]));
    }
    lemma_attached(s.entity_tags, tags);
}

/// Whether a tag of the campaign `campaign` has the name `name`.
pub open spec fn name_taken(tags: Seq<Tag>, campaign: Seq<char>, name: Seq<char>) -> bool {
    exists|j: int|
        0 <= j < tags.len() && (#[trigger] tags[j]).campaign_id@ == campaign && tags[j].name@
            == name
}

/// Decides [`name_taken`].
fn name_in_use(db: &Database, campaign: &String, name: &String) -> (r: bool)
    ensures
        r == name_taken(db@.tags, campaign@, name@),
{
    let mut j: usize = 0;
    while j < db.tags.len()
        invariant
            j <= db@.tags.len(),
            forall|k: int|
                0 <= k < j ==> !((#[trigger] db@.tags[k]).campaign_id@ == campaign@
                    && db@.tags[k].name@ == name@),
        decreases db@.tags.len() - j,
    {
        let row = db.tags.row(j);
        if row.campaign_id == *campaign && row.name == *name {
            return true;
        }
        j += 1;
    }
    false
}

/// Stores `row`, unless the store refuses it.
pub fn insert_tag(db: &mut Database, row: Tag) -> (r: Result<(), AppError>)
    requires
        old(db).wf(),
    ensures
        final(db).wf(),
        match r {
            Ok(()) => {
                &&& tag_refusal(old(db)@, row) is None
                &&& final(db)@ == with_tag(old(db)@, row)
            },
            Err(e) => {
                &&& e is Database
                &&& Some(e.detail()) == tag_refusal(old(db)@, row)
                &&& final(db)@ == old(db)@
            },
        },
{
    if db.tags.contains(&row.id) {
        return Err(AppError::unique("tags.id"));
    }
    if name_in_use(db, &row.campaign_id, &row.name) {
        return Err(AppError::unique("tags.campaign_id, tags.name"));
    }
    if !db.campaigns.contains(&row.campaign_id) {
        return Err(AppError::foreign_key());
    }
    proof {
        lemma_with_tag_wf(db@, row);
    }
    db.tags.insert(row);
    Ok(())
}

/// Creates a tag of the campaign `campaign_id` under a fresh identifier, with
/// the current time as the time of its making. The store refuses a name that
/// another tag of the campaign has.
pub fn create_tag_impl(
    db: &mut Database,
    campaign_id: String,
    name: String,
    color: Option<String>,
) -> (r: Result<TagResponse, AppError>)
    requires
        old(db).wf(),
    ensures
        final(db).wf(),
        match r {
            Ok(response) => {
                &&& find(final(db)@.tags, response.id@) matches Some(row)
                &&& row == Tag::created(row.id, row.created_at, campaign_id, name, color)
                &&& is_random_uuid_text(row.id@)
                &&& row.created_at.is_clock_time()
                &&& tag_refusal(old(db)@, row) is None
                &&& response.represents(row)
                &&& final(db)@ == with_tag(old(db)@, row)
            },
            Err(e) => {
                &&& final(db)@ == old(db)@
                &&& e is Database
                &&& exists|row: Tag|
                    {
                        &&& #[trigger] tag_refusal(old(db)@, row) == Some(e.detail())
                        &&& row == Tag::created(row.id, row.created_at, campaign_id, name, color)
                    }
            },
        },
{
    let id = new_id();
    let now = Timestamp::now();
    let row = Tag::new(id, now, campaign_id, name, color);
    let response = TagResponse::from(row.copy());
    let ghost made = row;
    proof {
        lemma_push_keys(db@.tags, row);
    }
    match insert_tag(db, row) {
        Ok(()) => Ok(response),
        Err(e) => {
            assert(tag_refusal(old(db)@, made) == Some(e.detail()));
            Err(e)
        },
    }
}

/// The tag `id`.
pub fn get_tag_impl(db: &Database, id: String) -> (r: Result<TagResponse, AppError>)
    requires
        db.wf(),
    ensures
        match r {
            Ok(response) => find(db@.tags, id@) matches Some(row) && response.represents(row),
            Err(e) => {
                &&& find(db@.tags, id@) is None
                &&& e is NotFound
                &&& e.detail() == not_found_text("Tag"@, id@)
            },
        },
{
    match db.tags.get(&id) {
        Some(row) => Ok(TagResponse::from(row)),
        None => Err(AppError::not_found("Tag", id.as_str())),
    }
}

/// The tags of the campaign `campaign_id`, by name.
pub fn list_tags_impl(db: &Database, campaign_id: String) -> (r: Result<Vec<TagResponse>, AppError>)
    requires
        db.wf(),
    ensures
        r matches Ok(out) && TagResponse::list(out@, owned_by(db@.tags, campaign_id@)),
{
    let rows = sort_rows(db.tags.owned(&campaign_id));
    Ok(TagResponse::from_all(rows))
}

/// Removes the tag `id`; tells whether there was one. Its attachments go
/// with it.
pub fn delete_tag_impl(db: &mut Database, id: String) -> (r: Result<bool, AppError>)
    requires
        old(db).wf(),
    ensures
        final(db).wf(),
        r matches Ok(deleted) && deleted == has_key(old(db)@.tags, id@),
        final(db)@ == without_tag(old(db)@, id@),
{
    proof {
        lemma_without_tag_wf(db@, id@);
    }
    let deleted = db.tags.remove_key(&id);
    retain_attached(&mut db.entity_tags, &db.tags);
    Ok(deleted)
}

/// Whether the tag `tag` is attached to the entity `entity_id` of kind
/// `entity_type`.
pub open spec fn is_attached(
    entity_tags: Seq<EntityTag>,
    tag: Seq<char>,
    entity_type: Seq<char>,
    entity_id: Seq<char>,
) -> bool {
    exists|j: int|
        0 <= j < entity_tags.len() && (#[trigger] entity_tags[j]).joins(tag, entity_type, entity_id)
}

/// The test that an attachment is another than that of `tag` to the entity
/// `entity_id` of kind `entity_type`.
pub open spec fn is_other_attachment(
    tag: Seq<char>,
    entity_type: Seq<char>,
    entity_id: Seq<char>,
) -> spec_fn(EntityTag) -> bool {
    |t: EntityTag| !t.joins(tag, entity_type, entity_id)
}

/// The test that a tag is attached to the entity `entity_id` of kind
/// `entity_type`.
pub open spec fn is_tag_of(
    entity_tags: Seq<EntityTag>,
    entity_type: Seq<char>,
    entity_id: Seq<char>,
) -> spec_fn(Tag) -> bool {
    |t: Tag| is_attached(entity_tags, t.key(), entity_type, entity_id)
}

/// Why the store refuses to attach the tag, if it does: the attachment is
/// there already, or the tag is not stored.
pub open spec fn attachment_refusal(s: Snapshot, attachment: EntityTag) -> Option<Seq<char>> {
    if is_attached(
        s.entity_tags,
        attachment.tag_id@,
        attachment.entity_type@,
        attachment.entity_id@,
    ) {
        Some(unique_text("entity_tags.tag_id, entity_tags.entity_type, entity_tags.entity_id"@))
    } else if !has_key(s.tags, attachment.tag_id@) {
        Some(foreign_key_text())
    } else {
        None
    }
}

/// The store with one more attachment.
pub open spec fn with_attachment(s: Snapshot, attachment: EntityTag) -> Snapshot {
    Snapshot { entity_tags: s.entity_tags.push(attachment), ..s }
}

/// The store without the attachment of `tag` to the entity `entity_id` of
/// kind `entity_type`.
pub open spec fn without_attachment(
    s: Snapshot,
    tag: Seq<char>,
    entity_type: Seq<char>,
    entity_id: Seq<char>,
) -> Snapshot {
    Snapshot {
        entity_tags: s.entity_tags.filter(is_other_attachment(tag, entity_type, entity_id)),
        ..s
    }
}

/// Decides [`is_attached`].
fn attachment_exists(db: &Database, tag: &String, entity_type: &String, entity_id: &String) -> (r:
    bool)
    ensures
        r == is_attached(db@.entity_tags, tag@, entity_type@, entity_id@),
{
    let mut j: usize = 0;
    while j < db.entity_tags.len()
        invariant
            j <= db.entity_tags.len(),
            forall|k: int|
                0 <= k < j ==> !(#[trigger] db.entity_tags@[k]).joins(
                    tag@,
                    entity_type@,
                    entity_id@,
                ),
        decreases db.entity_tags.len() - j,
    {
        if db.entity_tags[j].links(tag, entity_type, entity_id) {
            return true;
        }
        j += 1;
    }
    false
}

/// Attaches the tag `tag_id` to the entity `entity_id` of kind
/// `entity_type`. The entity is not looked up: it need not exist.
pub fn add_entity_tag_impl(
    db: &mut Database,
    tag_id: String,
    entity_type: String,
    entity_id: String,
) -> (r: Result<bool, AppError>)
    requires
        old(db).wf(),
    ensures
        final(db).wf(),
        match r {
            Ok(added) => {
                let attachment = EntityTag { tag_id, entity_type, entity_id };
                &&& added
                &&& attachment_refusal(old(db)@, attachment) is None
                &&& final(db)@ == with_attachment(old(db)@, attachment)
            },
            Err(e) => {
                let attachment = EntityTag { tag_id, entity_type, entity_id };
                &&& e is Database
                &&& Some(e.detail()) == attachment_refusal(old(db)@, attachment)
                &&& final(db)@ == old(db)@
            },
        },
{
    if attachment_exists(db, &tag_id, &entity_type, &entity_id) {
        return Err(
            AppError::unique("entity_tags.tag_id, entity_tags.entity_type, entity_tags.entity_id"),
        );
    }
    if !db.tags.contains(&tag_id) {
        return Err(AppError::foreign_key());
    }
    let attachment = EntityTag { tag_id, entity_type, entity_id };
    proof {
        let more = db@.entity_tags.push(attachment);
        assert forall|a: int, b: int|
            #![trigger more[a], more[b]]
            0 <= a < more.len() && 0 <= b < more.len() && a != b implies !more[a].joins(
            more[b].tag_id@,
            more[b].entity_type@,
            more[b].entity_id@,
        ) by {
            if a < db@.entity_tags.len() && b < db@.entity_tags.len() {
                assert(more[a] == db@.entity_tags[a] && more[b] == db@.entity_tags[b]);
            } else if a < db@.entity_tags.len() {
                assert(more[a] == db@.entity_tags[a]);
            } else {
                assert(more[b] == db@.entity_tags[b]);
            }
        }
    }
    db.entity_tags.push(attachment);
    Ok(true)
}

/// Takes the tag `tag_id` off the entity `entity_id` of kind `entity_type`;
/// tells whether it was attached.
pub fn remove_entity_tag_impl(
    db: &mut Database,
    tag_id: String,
    entity_type: String,
    entity_id: String,
) -> (r: Result<bool, AppError>)
    requires
        old(db).wf(),
    ensures
        final(db).wf(),
        r matches Ok(removed) && removed == is_attached(
            old(db)@.entity_tags,
            tag_id@,
            entity_type@,
            entity_id@,
        ),
        final(db)@ == without_attachment(old(db)@, tag_id@, entity_type@, entity_id@),
{
    let mut kept: Vec<EntityTag> = Vec::new();
    let mut removed = false;
    let mut i: usize = 0;
    let ghost pred = is_other_attachment(tag_id@, entity_type@, entity_id@);
    let ghost start = db@.entity_tags;
    proof {
        reveal(Seq::filter);
        assert(start.take(0) =~= Seq::<EntityTag>::empty());
    }
    while i < db.entity_tags.len()
        invariant
            i <= db.entity_tags.len(),
            db.entity_tags@ == start,
            pred == is_other_attachment(tag_id@, entity_type@, entity_id@),
            kept@ == start.take(i as int).filter(pred),
            removed == is_attached(start.take(i as int), tag_id@, entity_type@, entity_id@),
        decreases db.entity_tags.len() - i,
    {
        proof {
            let before = start.take(i as int);
            let next = start.take(i + 1);
            assert(next == before.push(start[i as int]));
            before.lemma_filter_push(start[i as int], pred);
            if is_attached(before, tag_id@, entity_type@, entity_id@) {
                let j = choose|j: int|
                    0 <= j < before.len() && (#[trigger] before[j]).joins(
                        tag_id@,
                        entity_type@,
                        entity_id@,
                    );
                assert(next[j].joins(tag_id@, entity_type@, entity_id@));
            }
            if is_attached(next, tag_id@, entity_type@, entity_id@) && !is_attached(
                before,
                tag_id@,
                entity_type@,
                entity_id@,
            ) {
                let j = choose|j: int|
                    0 <= j < next.len() && (#[trigger] next[j]).joins(
                        tag_id@,
                        entity_type@,
                        entity_id@,
                    );
                if j < i {
                    assert(before[j].joins(tag_id@, entity_type@, entity_id@));
                }
            }
        }
        if db.entity_tags[i].links(&tag_id, &entity_type, &entity_id) {
            removed = true;
            proof {
                assert(start.take(i + 1)[i as int].joins(tag_id@, entity_type@, entity_id@));
            }
        } else {
            kept.push(db.entity_tags[i].copy());
        }
        i += 1;
    }
    proof {
        assert(start.take(start.len() as int) == start);
        lemma_attachments_filter(start, pred);
        let fewer = start.filter(pred);
        assert forall|k: int| 0 <= k < fewer.len() implies has_key(
            db@.tags,
            (#[trigger] fewer[k]).tag_id@,
        ) by {
            assert(fewer.contains(fewer[k]));
            assert(start.contains(fewer[k]));
            let p = choose|p: int| 0 <= p < start.len() && start[p] == fewer[k];
            assert(start[p] == fewer[k]);
        }
    }
    db.entity_tags = kept;
    Ok(removed)
}

/// The tags attached to the entity `entity_id` of kind `entity_type`, by
/// name.
pub fn get_entity_tags_impl(db: &Database, entity_type: String, entity_id: String) -> (r: Result<
    Vec<TagResponse>,
    AppError,
>)
    requires
        db.wf(),
    ensures
        r matches Ok(out) && TagResponse::list(
            out@,
            db@.tags.filter(is_tag_of(db@.entity_tags, entity_type@, entity_id@)),
        ),
{
    let all = db.tags.all();
    let mut found: Vec<Tag> = Vec::new();
    let mut i: usize = 0;
    let ghost pred = is_tag_of(db@.entity_tags, entity_type@, entity_id@);
    proof {
        reveal(Seq::filter);
        assert(all@.take(0) =~= Seq::<Tag>::empty());
    }
    while i < all.len()
        invariant
            i <= all.len(),
            pred == is_tag_of(db@.entity_tags, entity_type@, entity_id@),
            found@ == all@.take(i as int).filter(pred),
        decreases all.len() - i,
    {
        proof {
            let before = all@.take(i as int);
            assert(all@.take(i + 1) == before.push(all@[i as int]));
            before.lemma_filter_push(all@[i as int], pred);
        }
        if attachment_exists(db, &all[i].id, &entity_type, &entity_id) {
            found.push(all[i].copy());
        }
        i += 1;
    }
    proof {
        assert(all@.take(all@.len() as int) == all@);
    }
    Ok(TagResponse::from_all(sort_rows(found)))
}

} // verus!
