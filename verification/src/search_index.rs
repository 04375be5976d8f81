//! The full-text index as data: one entry for each searchable row, derived
//! from the row and from nothing else.

use crate::table::{
    has_key, has_other_key, has_owner_in, keys_distinct, lemma_filter_keys,
    lemma_filter_members, surviving, without_key, Row, Table,
};
use vstd::prelude::*;

verus! {

/// The kinds of entity that take part in search.
#[derive(Clone, Copy, Debug, PartialEq, Eq, Structural)]
pub enum IndexedKind {
    Character,
    Location,
    Organization,
    Quest,
    Hero,
    Session,
}

impl IndexedKind {
    /// The name under which the kind appears in search results.
    pub open spec fn label(self) -> Seq<char> {
        match self {
            IndexedKind::Character => "character"@,
            IndexedKind::Location => "location"@,
            IndexedKind::Organization => "organization"@,
            IndexedKind::Quest => "quest"@,
            IndexedKind::Hero => "hero"@,
            IndexedKind::Session => "session"@,
        }
    }

    /// The name under which the kind appears in search results.
    pub fn as_str(&self) -> (s: &'static str)
        ensures
            s@ == self.label(),
    {
        match self {
            IndexedKind::Character => "character",
            IndexedKind::Location => "location",
            IndexedKind::Organization => "organization",
            IndexedKind::Quest => "quest",
            IndexedKind::Hero => "hero",
            IndexedKind::Session => "session",
        }
    }
}

/// One entry of the index.
#[derive(Debug)]
pub struct IndexEntry {
    pub kind: IndexedKind,
    pub entity_id: String,
    pub campaign_id: String,
    pub name: String,
    pub content: String,
}

/// What an entry of the index holds.
pub struct IndexEntryView {
    pub kind: IndexedKind,
    pub entity_id: Seq<char>,
    pub campaign_id: Seq<char>,
    pub name: Seq<char>,
    pub content: Seq<char>,
}

impl View for IndexEntry {
    type V = IndexEntryView;

    open spec fn view(&self) -> IndexEntryView {
        IndexEntryView {
            kind: self.kind,
            entity_id: self.entity_id@,
            campaign_id: self.campaign_id@,
            name: self.name@,
            content: self.content@,
        }
    }
}

impl IndexEntry {
    /// A copy of the entry.
    pub fn copy(&self) -> (e: IndexEntry)
        ensures
            e@ == self@,
    {
        IndexEntry {
            kind: self.kind,
            entity_id: self.entity_id.clone(),
            campaign_id: self.campaign_id.clone(),
            name: self.name.clone(),
            content: self.content.clone(),
        }
    }
}

/// A row that takes part in search: it has a kind, a display name and a
/// searchable text.
pub trait Indexed: Row {
    /// The kind the row is indexed under.
    spec fn kind() -> IndexedKind;

    /// The display name of the row in the index.
    spec fn index_name(&self) -> Seq<char>;

    /// The searchable text of the row.
    spec fn index_content(&self) -> Seq<char>;

    /// The index entry of the row.
    fn project(&self) -> (e: IndexEntry)
        ensures
            e@ == (IndexEntryView {
                kind: Self::kind(),
                entity_id: self.key(),
                campaign_id: self.owner(),
                name: self.index_name(),
                content: self.index_content(),
            }),
    ;
}

/// The index entry that a row gives rise to.
pub open spec fn projection<R: Indexed>(row: R) -> IndexEntryView {
    IndexEntryView {
        kind: R::kind(),
        entity_id: row.key(),
        campaign_id: row.owner(),
        name: row.index_name(),
        content: row.index_content(),
    }
}

/// The entries of `index` as what they hold.
pub open spec fn entries_of(index: Seq<IndexEntry>) -> Seq<IndexEntryView> {
    index.map_values(|e: IndexEntry| e@)
}

/// Whether `index` mirrors `rows`: the entry of each row is there, and each
/// entry of the rows' kind is the entry of one of the rows.
pub open spec fn mirrors<R: Indexed>(index: Seq<IndexEntryView>, rows: Seq<R>) -> bool {
    &&& forall|i: int| 0 <= i < rows.len() ==> index.contains(#[trigger] projection(rows[i]))
    &&& forall|j: int|
        0 <= j < index.len() && (#[trigger] index[j]).kind == R::kind() ==> has_key(
            rows,
            index[j].entity_id,
        )
}

/// Whether no two entries of `index` stand for the same row.
pub open spec fn entries_distinct(index: Seq<IndexEntryView>) -> bool {
    forall|i: int, j: int|
        #![trigger index[i], index[j]]
        0 <= i < index.len() && 0 <= j < index.len() && i != j ==> !(index[i].kind
            == index[j].kind && index[i].entity_id == index[j].entity_id)
}

/// The entry for the row `id` of kind `kind`, where there is one.
pub open spec fn entry_of(index: Seq<IndexEntryView>, kind: IndexedKind, id: Seq<char>) -> Option<
    IndexEntryView,
> {
    if exists|j: int| 0 <= j < index.len() && is_entry_for(#[trigger] index[j], kind, id) {
        Some(
            index[choose|j: int| 0 <= j < index.len() && is_entry_for(
                #[trigger] index[j],
                kind,
                id,
            )],
        )
    } else {
        None
    }
}

/// Whether `entry` stands for the row `id` of kind `kind`.
pub open spec fn is_entry_for(entry: IndexEntryView, kind: IndexedKind, id: Seq<char>) -> bool {
    entry.kind == kind && entry.entity_id == id
}

/// The test that an entry stands for another row than `id` of kind `kind`.
pub open spec fn is_other_entry(
    kind: IndexedKind,
    id: Seq<char>,
) -> spec_fn(IndexEntryView) -> bool {
    |e: IndexEntryView| !is_entry_for(e, kind, id)
}

/// The test that an entry belongs to one of `campaigns`.
pub open spec fn is_within<P: Row>(campaigns: Seq<P>) -> spec_fn(IndexEntryView) -> bool {
    |e: IndexEntryView| has_key(campaigns, e.campaign_id)
}

/// The index without the entry for the row `id` of kind `kind`.
pub open spec fn without_entry(index: Seq<IndexEntryView>, kind: IndexedKind, id: Seq<char>) -> Seq<
    IndexEntryView,
> {
    index.filter(is_other_entry(kind, id))
}

/// The entries that belong to one of `campaigns`: what is left of the index
/// when campaigns have been removed.
pub open spec fn within<P: Row>(index: Seq<IndexEntryView>, campaigns: Seq<P>) -> Seq<
    IndexEntryView,
> {
    index.filter(is_within(campaigns))
}

/// What a filter keeps of an index: only entries that were there, all those
/// that pass, and no two for the same row.
pub proof fn lemma_index_filter(index: Seq<IndexEntryView>, pred: spec_fn(IndexEntryView) -> bool)
    ensures
        entries_distinct(index) ==> entries_distinct(index.filter(pred)),
        forall|e: IndexEntryView| #[trigger]
            index.filter(pred).contains(e) <==> index.contains(e) && pred(e),
    decreases index.len(),
{
    reveal(Seq::filter);
    lemma_filter_members(index, pred);
    let out = index.filter(pred);
    if index.len() > 0 && entries_distinct(index) {
        let init = index.drop_last();
        let sub = init.filter(pred);
        lemma_index_filter(init, pred);
        assert(entries_distinct(init)) by {
            assert forall|i: int, j: int|
                #![trigger init[i], init[j]]
                0 <= i < init.len() && 0 <= j < init.len() && i != j implies !(init[i].kind
                == init[j].kind && init[i].entity_id == init[j].entity_id) by {
                assert(init[i] == index[i] && init[j] == index[j]);
            }
        }
        assert forall|i: int, j: int|
            #![trigger out[i], out[j]]
            0 <= i < out.len() && 0 <= j < out.len() && i != j implies !(out[i].kind == out[j].kind
            && out[i].entity_id == out[j].entity_id) by {
            if i < sub.len() && j < sub.len() {
                assert(out[i] == sub[i] && out[j] == sub[j]);
            } else {
                let k = if i < sub.len() {
                    i
                } else {
                    j
                };
                assert(sub.contains(sub[k]));
                assert(init.contains(sub[k]));
                let p = choose|p: int| 0 <= p < init.len() && init[p] == sub[k];
                assert(index[p] == sub[k]);
                assert(index[index.len() - 1] == index.last());
            }
        }
    }
}

/// Adding the entry of a new row keeps the index in step with the rows of
/// that kind.
pub proof fn lemma_mirror_insert<R: Indexed>(index: Seq<IndexEntryView>, rows: Seq<R>, row: R)
    requires
        mirrors(index, rows),
        entries_distinct(index),
        !has_key(rows, row.key()),
    ensures
        mirrors(index.push(projection(row)), rows.push(row)),
        entries_distinct(index.push(projection(row))),
{
    let next = index.push(projection(row));
    let more = rows.push(row);
    assert forall|i: int| 0 <= i < more.len() implies next.contains(
        #[trigger] projection(more[i]),
    ) by {
        if i < rows.len() {
            assert(more[i] == rows[i]);
            assert(index.contains(projection(rows[i])));
            let j = choose|j: int| 0 <= j < index.len() && index[j] == projection(rows[i]);
            assert(next[j] == projection(more[i]));
        } else {
            assert(next[next.len() - 1] == projection(more[i]));
        }
    }
    assert forall|j: int| 0 <= j < next.len() && (#[trigger] next[j]).kind == R::kind() implies has_key(
        more,
        next[j].entity_id,
    ) by {
        if j < index.len() {
            assert(next[j] == index[j]);
            let i = choose|i: int| 0 <= i < rows.len() && #[trigger] rows[i].key() == index[j].entity_id;
            assert(more[i].key() == next[j].entity_id);
        } else {
            assert(more[more.len() - 1].key() == next[j].entity_id);
        }
    }
    assert forall|i: int, j: int|
        #![trigger next[i], next[j]]
        0 <= i < next.len() && 0 <= j < next.len() && i != j implies !(next[i].kind == next[j].kind
        && next[i].entity_id == next[j].entity_id) by {
        if i < index.len() && j < index.len() {
            assert(next[i] == index[i] && next[j] == index[j]);
        } else {
            let k = if i < index.len() {
                i
            } else {
                j
            };
            assert(next[k] == index[k]);
            if index[k].kind == R::kind() && index[k].entity_id == row.key() {
                assert(has_key(rows, index[k].entity_id));
            }
        }
    }
}

/// A removed entry of another kind leaves the index in step.
pub proof fn lemma_mirror_remove_other<R: Indexed>(
    index: Seq<IndexEntryView>,
    rows: Seq<R>,
    kind: IndexedKind,
    id: Seq<char>,
)
    requires
        mirrors(index, rows),
        kind != R::kind(),
    ensures
        mirrors(without_entry(index, kind, id), rows),
{
    let pred = is_other_entry(kind, id);
    let less = without_entry(index, kind, id);
    lemma_index_filter(index, pred);
    assert forall|i: int| 0 <= i < rows.len() implies less.contains(
        #[trigger] projection(rows[i]),
    ) by {
        assert(index.contains(projection(rows[i])));
        assert(pred(projection(rows[i])));
    }
    assert forall|j: int| 0 <= j < less.len() && (#[trigger] less[j]).kind == R::kind() implies has_key(
        rows,
        less[j].entity_id,
    ) by {
        assert(less.contains(less[j]));
        assert(index.contains(less[j]));
        let p = choose|p: int| 0 <= p < index.len() && index[p] == less[j];
        assert(index[p].kind == R::kind());
    }
}

/// An added entry of another kind leaves the index in step.
pub proof fn lemma_mirror_push_other<R: Indexed>(
    index: Seq<IndexEntryView>,
    rows: Seq<R>,
    entry: IndexEntryView,
)
    requires
        mirrors(index, rows),
        entry.kind != R::kind(),
    ensures
        mirrors(index.push(entry), rows),
{
    let next = index.push(entry);
    assert forall|i: int| 0 <= i < rows.len() implies next.contains(
        #[trigger] projection(rows[i]),
    ) by {
        assert(index.contains(projection(rows[i])));
        let j = choose|j: int| 0 <= j < index.len() && index[j] == projection(rows[i]);
        assert(next[j] == projection(rows[i]));
    }
    assert forall|j: int| 0 <= j < next.len() && (#[trigger] next[j]).kind == R::kind() implies has_key(
        rows,
        next[j].entity_id,
    ) by {
        assert(next[j] == index[j]);
    }
}

/// Removing a row together with its entry keeps the index in step.
pub proof fn lemma_mirror_remove<R: Indexed>(
    index: Seq<IndexEntryView>,
    rows: Seq<R>,
    id: Seq<char>,
)
    requires
        mirrors(index, rows),
        keys_distinct(rows),
    ensures
        mirrors(without_entry(index, R::kind(), id), without_key(rows, id)),
{
    let pred = is_other_entry(R::kind(), id);
    let keep = has_other_key::<R>(id);
    let less = without_entry(index, R::kind(), id);
    let fewer = without_key(rows, id);
    lemma_index_filter(index, pred);
    lemma_filter_keys(rows, keep);
    assert forall|i: int| 0 <= i < fewer.len() implies less.contains(
        #[trigger] projection(fewer[i]),
    ) by {
        assert(rows.contains(fewer[i]));
        let p = choose|p: int| 0 <= p < rows.len() && rows[p] == fewer[i];
        assert(index.contains(projection(rows[p])));
        assert(keep(fewer[i]));
        assert(pred(projection(fewer[i])));
    }
    assert forall|j: int| 0 <= j < less.len() && (#[trigger] less[j]).kind == R::kind() implies has_key(
        fewer,
        less[j].entity_id,
    ) by {
        assert(less.contains(less[j]));
        assert(index.contains(less[j]) && pred(less[j]));
        let p = choose|p: int| 0 <= p < index.len() && index[p] == less[j];
        assert(index[p].kind == R::kind());
        assert(has_key(rows, less[j].entity_id));
        let i = choose|i: int| 0 <= i < rows.len() && #[trigger] rows[i].key() == less[j].entity_id;
        assert(keep(rows[i]));
        assert(has_key(fewer, rows[i].key()));
    }
}

/// Replacing a row, and its entry by the entry of the new row, keeps the
/// index in step.
pub proof fn lemma_mirror_replace<R: Indexed>(
    index: Seq<IndexEntryView>,
    rows: Seq<R>,
    i: int,
    row: R,
)
    requires
        mirrors(index, rows),
        entries_distinct(index),
        keys_distinct(rows),
        0 <= i < rows.len(),
        row.key() == rows[i].key(),
    ensures
        mirrors(
            without_entry(index, R::kind(), row.key()).push(projection(row)),
            rows.update(i, row),
        ),
        entries_distinct(without_entry(index, R::kind(), row.key()).push(projection(row))),
{
    let id = row.key();
    let pred = is_other_entry(R::kind(), id);
    let less = without_entry(index, R::kind(), id);
    let next = less.push(projection(row));
    let after = rows.update(i, row);
    lemma_index_filter(index, pred);
    assert forall|k: int| 0 <= k < after.len() implies next.contains(
        #[trigger] projection(after[k]),
    ) by {
        if k == i {
            assert(next[next.len() - 1] == projection(after[k]));
        } else {
            assert(after[k] == rows[k]);
            assert(rows[k].key() != rows[i].key());
            assert(index.contains(projection(rows[k])));
            assert(pred(projection(rows[k])));
            assert(less.contains(projection(rows[k])));
            let j = choose|j: int| 0 <= j < less.len() && less[j] == projection(rows[k]);
            assert(next[j] == projection(after[k]));
        }
    }
    assert forall|j: int| 0 <= j < next.len() && (#[trigger] next[j]).kind == R::kind() implies has_key(
        after,
        next[j].entity_id,
    ) by {
        if j < less.len() {
            assert(next[j] == less[j]);
            assert(less.contains(less[j]));
            assert(index.contains(less[j]));
            let p = choose|p: int| 0 <= p < index.len() && index[p] == less[j];
            assert(index[p].kind == R::kind());
            assert(has_key(rows, less[j].entity_id));
            let q = choose|q: int| 0 <= q < rows.len() && #[trigger] rows[q].key() == less[j].entity_id;
            assert(after[q].key() == rows[q].key());
        } else {
            assert(after[i].key() == next[j].entity_id);
        }
    }
    assert forall|a: int, b: int|
        #![trigger next[a], next[b]]
        0 <= a < next.len() && 0 <= b < next.len() && a != b implies !(next[a].kind == next[b].kind
        && next[a].entity_id == next[b].entity_id) by {
        if a < less.len() && b < less.len() {
            assert(next[a] == less[a] && next[b] == less[b]);
        } else {
            let k = if a < less.len() {
                a
            } else {
                b
            };
            assert(next[k] == less[k]);
            assert(less.contains(less[k]));
            assert(pred(less[k]));
        }
    }
}

/// Removing the rows of removed campaigns together with their entries
/// keeps the index in step.
pub proof fn lemma_mirror_cascade<R: Indexed, P: Row>(
    index: Seq<IndexEntryView>,
    rows: Seq<R>,
    campaigns: Seq<P>,
)
    requires
        mirrors(index, rows),
        entries_distinct(index),
        keys_distinct(rows),
    ensures
        mirrors(within(index, campaigns), surviving(rows, campaigns)),
{
    let pred = is_within(campaigns);
    let keep = has_owner_in::<R, P>(campaigns);
    let less = within(index, campaigns);
    let fewer = surviving(rows, campaigns);
    lemma_index_filter(index, pred);
    lemma_filter_keys(rows, keep);
    assert forall|i: int| 0 <= i < fewer.len() implies less.contains(
        #[trigger] projection(fewer[i]),
    ) by {
        assert(rows.contains(fewer[i]));
        let p = choose|p: int| 0 <= p < rows.len() && rows[p] == fewer[i];
        assert(index.contains(projection(rows[p])));
        assert(keep(fewer[i]));
        assert(pred(projection(fewer[i])));
    }
    assert forall|j: int| 0 <= j < less.len() && (#[trigger] less[j]).kind == R::kind() implies has_key(
        fewer,
        less[j].entity_id,
    ) by {
        assert(less.contains(less[j]));
        assert(index.contains(less[j]) && pred(less[j]));
        let p = choose|p: int| 0 <= p < index.len() && index[p] == less[j];
        assert(index[p].kind == R::kind());
        assert(has_key(rows, less[j].entity_id));
        let i = choose|i: int| 0 <= i < rows.len() && #[trigger] rows[i].key() == less[j].entity_id;
        assert(index.contains(projection(rows[i])));
        let q = choose|q: int| 0 <= q < index.len() && index[q] == projection(rows[i]);
        if q != p {
            assert(!(index[q].kind == index[p].kind && index[q].entity_id == index[p].entity_id));
        }
        assert(keep(rows[i]));
        assert(has_key(fewer, rows[i].key()));
    }
}

/// Rows that change without their entries changing leave the index in step.
pub proof fn lemma_mirror_same_entries<R: Indexed>(
    index: Seq<IndexEntryView>,
    rows: Seq<R>,
    after: Seq<R>,
)
    requires
        mirrors(index, rows),
        after.len() == rows.len(),
        forall|i: int| 0 <= i < rows.len() ==> projection(#[trigger] after[i]) == projection(
            rows[i],
        ),
    ensures
        mirrors(index, after),
{
    assert forall|i: int| 0 <= i < after.len() implies index.contains(
        #[trigger] projection(after[i]),
    ) by {
        assert(projection(after[i]) == projection(rows[i]));
    }
    assert forall|j: int| 0 <= j < index.len() && (#[trigger] index[j]).kind == R::kind() implies has_key(
        after,
        index[j].entity_id,
    ) by {
        let i = choose|i: int| 0 <= i < rows.len() && #[trigger] rows[i].key() == index[j].entity_id;
        assert(projection(after[i]) == projection(rows[i]));
        assert(after[i].key() == index[j].entity_id);
    }
}

/// The full-text index: the entries in the order in which they were made.
pub struct SearchIndex {
    pub(crate) entries: Vec<IndexEntry>,
}

impl View for SearchIndex {
    type V = Seq<IndexEntryView>;

    closed spec fn view(&self) -> Seq<IndexEntryView> {
        entries_of(self.entries@)
    }
}

impl SearchIndex {
    /// An index without entries.
    pub fn new() -> (index: Self)
        ensures
            index@ == Seq::<IndexEntryView>::empty(),
    {
        let index = SearchIndex { entries: Vec::new() };
        assert(index@ =~= Seq::<IndexEntryView>::empty());
        index
    }

    /// Adds one entry, after those already there.
    pub fn insert(&mut self, entry: IndexEntry)
        ensures
            final(self)@ == old(self)@.push(entry@),
    {
        self.entries.push(entry);
        assert(self@ =~= old(self)@.push(entry@));
    }

    /// Removes the entry for the row `id` of kind `kind`.
    pub fn remove(&mut self, kind: IndexedKind, id: &String)
        ensures
            final(self)@ == without_entry(old(self)@, kind, id@),
    {
        let mut kept: Vec<IndexEntry> = Vec::new();
        let mut i: usize = 0;
        let ghost pred = is_other_entry(kind, id@);
        proof {
            reveal(Seq::filter);
            assert(entries_of(self.entries@.take(0)) =~= Seq::<IndexEntryView>::empty());
            assert(entries_of(kept@) =~= Seq::<IndexEntryView>::empty());
        }
        while i < self.entries.len()
            invariant
                i <= self.entries.len(),
                pred == is_other_entry(kind, id@),
                entries_of(kept@) == entries_of(self.entries@.take(i as int)).filter(pred),
            decreases self.entries.len() - i,
        {
            let ghost before = entries_of(self.entries@.take(i as int));
            let ghost held = kept@;
            proof {
                assert(entries_of(self.entries@.take(i + 1)) =~= before.push(
                    self.entries@[i as int]@,
                ));
                before.lemma_filter_push(self.entries@[i as int]@, pred);
            }
            if !(self.entries[i].kind == kind && self.entries[i].entity_id == *id) {
                kept.push(self.entries[i].copy());
                assert(entries_of(kept@) =~= entries_of(held).push(self.entries@[i as int]@));
            }
            i += 1;
        }
        proof {
            assert(self.entries@.take(self.entries@.len() as int) == self.entries@);
        }
        self.entries = kept;
    }

    /// Removes the entries whose campaign is not in `campaigns`.
    pub fn retain_within<P: Row>(&mut self, campaigns: &Table<P>)
        ensures
            final(self)@ == within(old(self)@, campaigns@),
    {
        let mut kept: Vec<IndexEntry> = Vec::new();
        let mut i: usize = 0;
        let ghost pred = is_within(campaigns@);
        proof {
            reveal(Seq::filter);
            assert(entries_of(self.entries@.take(0)) =~= Seq::<IndexEntryView>::empty());
            assert(entries_of(kept@) =~= Seq::<IndexEntryView>::empty());
        }
        while i < self.entries.len()
            invariant
                i <= self.entries.len(),
                pred == is_within(campaigns@),
                entries_of(kept@) == entries_of(self.entries@.take(i as int)).filter(pred),
            decreases self.entries.len() - i,
        {
            let ghost before = entries_of(self.entries@.take(i as int));
            let ghost held = kept@;
            proof {
                assert(entries_of(self.entries@.take(i + 1)) =~= before.push(
                    self.entries@[i as int]@,
                ));
                before.lemma_filter_push(self.entries@[i as int]@, pred);
            }
            if campaigns.contains(&self.entries[i].campaign_id) {
                kept.push(self.entries[i].copy());
                assert(entries_of(kept@) =~= entries_of(held).push(self.entries@[i as int]@));
            }
            i += 1;
        }
        proof {
            assert(self.entries@.take(self.entries@.len() as int) == self.entries@);
        }
        self.entries = kept;
    }

    /// A copy of the entry for the row `id` of kind `kind`.
    pub fn lookup(&self, kind: IndexedKind, id: &String) -> (r: Option<IndexEntry>)
        ensures
            r is Some <==> entry_of(self@, kind, id@) is Some,
            r matches Some(e) ==> is_entry_for(e@, kind, id@) && self@.contains(e@),
            entries_distinct(self@) ==> (r matches Some(e) ==> Some(e@) == entry_of(
                self@,
                kind,
                id@,
            )),
    {
        let mut i: usize = 0;
        while i < self.entries.len()
            invariant
                i <= self.entries.len(),
                forall|k: int| 0 <= k < i ==> !is_entry_for(#[trigger] self@[k], kind, id@),
            decreases self.entries.len() - i,
        {
            if self.entries[i].kind == kind && self.entries[i].entity_id == *id {
                let e = self.entries[i].copy();
                proof {
                    assert(self@[i as int] == e@);
                    assert(is_entry_for(self@[i as int], kind, id@));
                    if entries_distinct(self@) {
                        let j = choose|j: int|
                            0 <= j < self@.len() && is_entry_for(#[trigger] self@[j], kind, id@);
                        if j != i {
                            assert(!(self@[j].kind == self@[i as int].kind && self@[j].entity_id
                                == self@[i as int].entity_id));
                        }
                    }
                }
                return Some(e);
            }
            i += 1;
        }
        None
    }

    /// Copies of the entries of the campaign `campaign`, in index order.
    pub fn of_campaign(&self, campaign: &String) -> (out: Vec<IndexEntry>)
        ensures
            entries_of(out@) == self@.filter(is_in_campaign(campaign@)),
    {
        let mut out: Vec<IndexEntry> = Vec::new();
        let mut i: usize = 0;
        let ghost pred = is_in_campaign(campaign@);
        proof {
            reveal(Seq::filter);
            assert(entries_of(self.entries@.take(0)) =~= Seq::<IndexEntryView>::empty());
            assert(entries_of(out@) =~= Seq::<IndexEntryView>::empty());
        }
        while i < self.entries.len()
            invariant
                i <= self.entries.len(),
                pred == is_in_campaign(campaign@),
                entries_of(out@) == entries_of(self.entries@.take(i as int)).filter(pred),
            decreases self.entries.len() - i,
        {
            let ghost before = entries_of(self.entries@.take(i as int));
            let ghost held = out@;
            proof {
                assert(entries_of(self.entries@.take(i + 1)) =~= before.push(
                    self.entries@[i as int]@,
                ));
                before.lemma_filter_push(self.entries@[i as int]@, pred);
            }
            if self.entries[i].campaign_id == *campaign {
                out.push(self.entries[i].copy());
                assert(entries_of(out@) =~= entries_of(held).push(self.entries@[i as int]@));
            }
            i += 1;
        }
        proof {
            assert(self.entries@.take(self.entries@.len() as int) == self.entries@);
        }
        out
    }
}

/// The test that an entry belongs to the campaign `campaign`.
pub open spec fn is_in_campaign(campaign: Seq<char>) -> spec_fn(IndexEntryView) -> bool {
    |e: IndexEntryView| e.campaign_id == campaign
}

} // verus!
