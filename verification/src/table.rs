//! Rows with a primary key and an owner, and the table that holds them.

use vstd::prelude::*;
use vstd::seq_lib::*;

verus! {

/// A row of a table: it is found by its key, belongs to an owner (the row
/// whose removal removes it too), and has a place among its peers when they
/// are listed.
pub trait Row: Sized {
    /// The primary key.
    spec fn key(&self) -> Seq<char>;

    /// The key of the owning row.
    spec fn owner(&self) -> Seq<char>;

    /// Whether `self` may stand before `other` in a listing.
    spec fn before(&self, other: &Self) -> bool;

    /// The primary key.
    fn id(&self) -> (r: &String)
        ensures
            r@ == self.key(),
    ;

    /// The key of the owning row.
    fn owner_id(&self) -> (r: &String)
        ensures
            r@ == self.owner(),
    ;

    /// Decides [`Row::before`].
    fn comes_before(&self, other: &Self) -> (r: bool)
        ensures
            r == self.before(other),
    ;

    /// A copy of the row.
    fn copy(&self) -> (r: Self)
        ensures
            r == *self,
    ;

    /// Of two rows, one may stand before the other.
    proof fn lemma_before_total(a: &Self, b: &Self)
        ensures
            a.before(b) || b.before(a),
    ;

    /// The listing order is transitive.
    proof fn lemma_before_transitive(a: &Self, b: &Self, c: &Self)
        requires
            a.before(b),
            b.before(c),
        ensures
            a.before(c),
    ;
}

/// Whether some row of `rows` has the key `key`.
pub open spec fn has_key<R: Row>(rows: Seq<R>, key: Seq<char>) -> bool {
    exists|i: int| 0 <= i < rows.len() && #[trigger] rows[i].key() == key
}

/// Whether no two rows of `rows` share a key.
pub open spec fn keys_distinct<R: Row>(rows: Seq<R>) -> bool {
    forall|i: int, j: int|
        0 <= i < rows.len() && 0 <= j < rows.len() && i != j ==> #[trigger] rows[i].key()
            != #[trigger] rows[j].key()
}

/// The position of a row with the key `key`.
pub open spec fn index_of<R: Row>(rows: Seq<R>, key: Seq<char>) -> int {
    choose|i: int| 0 <= i < rows.len() && #[trigger] rows[i].key() == key
}

/// The row with the key `key`, where there is one.
pub open spec fn find<R: Row>(rows: Seq<R>, key: Seq<char>) -> Option<R> {
    if has_key(rows, key) {
        Some(rows[index_of(rows, key)])
    } else {
        None
    }
}

/// The test that a row belongs to `owner`.
pub open spec fn is_owned_by<R: Row>(owner: Seq<char>) -> spec_fn(R) -> bool {
    |r: R| r.owner() == owner
}

/// The test that a row does not belong to `owner`.
pub open spec fn is_not_owned_by<R: Row>(owner: Seq<char>) -> spec_fn(R) -> bool {
    |r: R| r.owner() != owner
}

/// The test that a row has another key than `key`.
pub open spec fn has_other_key<R: Row>(key: Seq<char>) -> spec_fn(R) -> bool {
    |r: R| r.key() != key
}

/// The rows that `owner` owns, in table order.
pub open spec fn owned_by<R: Row>(rows: Seq<R>, owner: Seq<char>) -> Seq<R> {
    rows.filter(is_owned_by(owner))
}

/// The rows that `owner` does not own, in table order.
pub open spec fn not_owned_by<R: Row>(rows: Seq<R>, owner: Seq<char>) -> Seq<R> {
    rows.filter(is_not_owned_by(owner))
}

/// The rows whose key is not `key`, in table order.
pub open spec fn without_key<R: Row>(rows: Seq<R>, key: Seq<char>) -> Seq<R> {
    rows.filter(has_other_key(key))
}

/// The test that a row's owner is among `owners`.
pub open spec fn has_owner_in<R: Row, P: Row>(owners: Seq<P>) -> spec_fn(R) -> bool {
    |r: R| has_key(owners, r.owner())
}

/// The rows whose owner is among `owners`, in table order: what is left of
/// `rows` when owners have been removed.
pub open spec fn surviving<R: Row, P: Row>(rows: Seq<R>, owners: Seq<P>) -> Seq<R> {
    rows.filter(has_owner_in::<R, P>(owners))
}

/// Whether every row of `rows` may stand before those after it.
pub open spec fn ordered<R: Row>(rows: Seq<R>) -> bool {
    forall|i: int, j: int|
        #![trigger rows[i], rows[j]]
        0 <= i < j < rows.len() ==> rows[i].before(&rows[j])
}

/// Whether `out` lists `of`: the same rows, each as often, in listing order.
pub open spec fn is_listing<R: Row>(out: Seq<R>, of: Seq<R>) -> bool {
    ordered(out) && out.to_multiset() == of.to_multiset()
}

/// Whether every row of `rows` is owned by a row of `owners`.
pub open spec fn owners_exist<R: Row, P: Row>(rows: Seq<R>, owners: Seq<P>) -> bool {
    forall|i: int| 0 <= i < rows.len() ==> has_key(owners, #[trigger] rows[i].owner())
}

/// A filter keeps exactly the elements that pass it.
pub proof fn lemma_filter_members<A>(s: Seq<A>, pred: spec_fn(A) -> bool)
    ensures
        forall|x: A| #[trigger] s.filter(pred).contains(x) <==> s.contains(x) && pred(x),
    decreases s.len(),
{
    reveal(Seq::filter);
    let out = s.filter(pred);
    if s.len() > 0 {
        let init = s.drop_last();
        let sub = init.filter(pred);
        lemma_filter_members(init, pred);
        assert forall|x: A| #[trigger] out.contains(x) <==> s.contains(x) && pred(x) by {
            if out.contains(x) {
                let j = choose|j: int| 0 <= j < out.len() && out[j] == x;
                if j < sub.len() {
                    assert(sub.contains(sub[j]));
                    let i = choose|i: int| 0 <= i < init.len() && init[i] == x;
                    assert(s[i] == x);
                } else {
                    assert(s[s.len() - 1] == x);
                }
            }
            if s.contains(x) && pred(x) {
                let i = choose|i: int| 0 <= i < s.len() && s[i] == x;
                if i < init.len() {
                    assert(init[i] == x);
                    assert(init.contains(x));
                    assert(sub.contains(x));
                    let j = choose|j: int| 0 <= j < sub.len() && sub[j] == x;
                    assert(out[j] == x);
                } else {
                    assert(out[out.len() - 1] == x);
                }
            }
        }
    }
}

/// A row found at a position is the row found by its key.
pub proof fn lemma_find_at<R: Row>(rows: Seq<R>, i: int)
    requires
        keys_distinct(rows),
        0 <= i < rows.len(),
    ensures
        has_key(rows, rows[i].key()),
        index_of(rows, rows[i].key()) == i,
        find(rows, rows[i].key()) == Some(rows[i]),
{
    assert(rows[i].key() == rows[i].key());
}

/// What a new row with a fresh key changes about keys: the keys stay
/// distinct, the new key is found, and every other key is found as before.
pub proof fn lemma_push_keys<R: Row>(rows: Seq<R>, row: R)
    ensures
        keys_distinct(rows) && !has_key(rows, row.key()) ==> keys_distinct(rows.push(row)),
        forall|k: Seq<char>| #[trigger]
            has_key(rows.push(row), k) <==> has_key(rows, k) || k == row.key(),
        keys_distinct(rows) && !has_key(rows, row.key()) ==> find(rows.push(row), row.key())
            == Some(row),
        keys_distinct(rows) && !has_key(rows, row.key()) ==> forall|k: Seq<char>|
            k != row.key() ==> #[trigger] find(rows.push(row), k) == find(rows, k),
{
    let more = rows.push(row);
    assert forall|k: Seq<char>| #[trigger] has_key(more, k) <==> has_key(rows, k) || k
        == row.key() by {
        if has_key(more, k) {
            let i = choose|i: int| 0 <= i < more.len() && #[trigger] more[i].key() == k;
            if i < rows.len() {
                assert(rows[i].key() == k);
            }
        }
        if has_key(rows, k) {
            let i = choose|i: int| 0 <= i < rows.len() && #[trigger] rows[i].key() == k;
            assert(more[i].key() == k);
        }
        if k == row.key() {
            assert(more[more.len() - 1].key() == k);
        }
    }
    if keys_distinct(rows) && !has_key(rows, row.key()) {
        assert forall|i: int, j: int|
            0 <= i < more.len() && 0 <= j < more.len() && i != j implies #[trigger] more[i].key()
            != #[trigger] more[j].key() by {
            if i < rows.len() && j < rows.len() {
                assert(rows[i].key() != rows[j].key());
            } else if i < rows.len() {
                assert(rows[i].key() == more[i].key());
            } else {
                assert(rows[j].key() == more[j].key());
            }
        }
        lemma_find_at(more, more.len() - 1);
        assert forall|k: Seq<char>| k != row.key() implies #[trigger] find(more, k) == find(
            rows,
            k,
        ) by {
            if has_key(rows, k) {
                let i = index_of(rows, k);
                assert(more[i] == rows[i]);
                lemma_find_at(more, i);
            }
        }
    }
}

/// What replacing a row by one with the same key changes about keys:
/// nothing, but that the key now finds the new row.
pub proof fn lemma_update_keys<R: Row>(rows: Seq<R>, i: int, row: R)
    requires
        0 <= i < rows.len(),
        row.key() == rows[i].key(),
    ensures
        keys_distinct(rows) ==> keys_distinct(rows.update(i, row)),
        forall|k: Seq<char>| #[trigger] has_key(rows.update(i, row), k) <==> has_key(rows, k),
        keys_distinct(rows) ==> find(rows.update(i, row), row.key()) == Some(row),
        keys_distinct(rows) ==> forall|k: Seq<char>|
            k != row.key() ==> #[trigger] find(rows.update(i, row), k) == find(rows, k),
{
    let after = rows.update(i, row);
    assert forall|k: Seq<char>| #[trigger] has_key(after, k) <==> has_key(rows, k) by {
        if has_key(after, k) {
            let j = choose|j: int| 0 <= j < after.len() && #[trigger] after[j].key() == k;
            assert(rows[j].key() == k);
        }
        if has_key(rows, k) {
            let j = choose|j: int| 0 <= j < rows.len() && #[trigger] rows[j].key() == k;
            assert(after[j].key() == k);
        }
    }
    if keys_distinct(rows) {
        assert forall|a: int, b: int|
            0 <= a < after.len() && 0 <= b < after.len() && a != b implies #[trigger] after[a].key()
            != #[trigger] after[b].key() by {
            assert(rows[a].key() != rows[b].key());
        }
        lemma_find_at(after, i);
        assert forall|k: Seq<char>| k != row.key() implies #[trigger] find(after, k) == find(
            rows,
            k,
        ) by {
            if has_key(rows, k) {
                let j = index_of(rows, k);
                assert(after[j] == rows[j]);
                lemma_find_at(after, j);
            }
        }
    }
}

/// The rows that survive a removal of owners all have an owner.
pub proof fn lemma_surviving_owned<R: Row, P: Row>(rows: Seq<R>, owners: Seq<P>)
    ensures
        owners_exist(surviving(rows, owners), owners),
{
    lemma_filter_keys(rows, has_owner_in::<R, P>(owners));
}

/// A filter keeps exactly the rows that pass it: what it says of keys.
pub proof fn lemma_filter_keys<R: Row>(rows: Seq<R>, pred: spec_fn(R) -> bool)
    ensures
        keys_distinct(rows) ==> keys_distinct(rows.filter(pred)),
        forall|k: Seq<char>| #[trigger]
            has_key(rows.filter(pred), k) ==> has_key(rows, k),
        forall|i: int|
            0 <= i < rows.len() && pred(rows[i]) ==> has_key(
                rows.filter(pred),
                #[trigger] rows[i].key(),
            ),
        forall|j: int|
            0 <= j < rows.filter(pred).len() ==> pred(#[trigger] rows.filter(pred)[j])
                && rows.contains(rows.filter(pred)[j]),
        keys_distinct(rows) ==> forall|k: Seq<char>|
            has_key(rows, k) && pred(rows[index_of(rows, k)]) ==> #[trigger] find(
                rows.filter(pred),
                k,
            ) == find(rows, k),
        keys_distinct(rows) ==> forall|k: Seq<char>|
            has_key(rows, k) && !pred(rows[index_of(rows, k)]) ==> !#[trigger] has_key(
                rows.filter(pred),
                k,
            ),
    decreases rows.len(),
{
    reveal(Seq::filter);
    let out = rows.filter(pred);
    if rows.len() > 0 {
        let init = rows.drop_last();
        let last = rows.last();
        lemma_filter_keys(init, pred);
        let sub = init.filter(pred);
        assert(out == if pred(last) {
            sub.push(last)
        } else {
            sub
        });
        assert forall|k: Seq<char>| #[trigger] has_key(out, k) implies has_key(rows, k) by {
            let j = choose|j: int| 0 <= j < out.len() && #[trigger] out[j].key() == k;
            if j < sub.len() {
                assert(sub[j].key() == k);
                assert(has_key(sub, k));
                assert(has_key(init, k));
                let i = choose|i: int| 0 <= i < init.len() && #[trigger] init[i].key() == k;
                assert(rows[i].key() == k);
            } else {
                assert(rows[rows.len() - 1].key() == k);
            }
        }
        assert forall|i: int| 0 <= i < rows.len() && pred(rows[i]) implies has_key(
            out,
            #[trigger] rows[i].key(),
        ) by {
            if i < init.len() {
                assert(init[i] == rows[i]);
                assert(has_key(sub, init[i].key()));
                let j = choose|j: int| 0 <= j < sub.len() && #[trigger] sub[j].key() == rows[i].key();
                assert(out[j].key() == rows[i].key());
            } else {
                assert(out[out.len() - 1].key() == rows[i].key());
            }
        }
        assert forall|j: int| 0 <= j < out.len() implies pred(#[trigger] out[j]) && rows.contains(
            out[j],
        ) by {
            if j < sub.len() {
                assert(out[j] == sub[j]);
                assert(init.contains(sub[j]));
                let i = choose|i: int| 0 <= i < init.len() && init[i] == sub[j];
                assert(rows[i] == out[j]);
            } else {
                assert(rows[rows.len() - 1] == out[j]);
            }
        }
        if keys_distinct(rows) {
            assert(keys_distinct(init)) by {
                assert forall|i: int, j: int|
                    0 <= i < init.len() && 0 <= j < init.len() && i != j implies #[trigger] init[i].key()
                    != #[trigger] init[j].key() by {
                    assert(rows[i].key() != rows[j].key());
                }
            }
            assert(keys_distinct(out)) by {
                assert forall|i: int, j: int|
                    0 <= i < out.len() && 0 <= j < out.len() && i != j implies #[trigger] out[i].key()
                    != #[trigger] out[j].key() by {
                    if i < sub.len() && j < sub.len() {
                    } else if i < sub.len() {
                        assert(has_key(sub, sub[i].key()));
                        assert(has_key(init, sub[i].key()));
                        let p = choose|p: int|
                            0 <= p < init.len() && #[trigger] init[p].key() == sub[i].key();
                        assert(rows[p].key() != rows[rows.len() - 1].key());
                    } else {
                        assert(has_key(sub, sub[j].key()));
                        assert(has_key(init, sub[j].key()));
                        let p = choose|p: int|
                            0 <= p < init.len() && #[trigger] init[p].key() == sub[j].key();
                        assert(rows[p].key() != rows[rows.len() - 1].key());
                    }
                }
            }
            assert forall|k: Seq<char>|
                has_key(rows, k) && pred(rows[index_of(rows, k)]) implies #[trigger] find(out, k)
                == find(rows, k) by {
                let i = index_of(rows, k);
                assert(has_key(out, rows[i].key()));
                let j = index_of(out, k);
                assert(rows.contains(out[j]));
                let p = choose|p: int| 0 <= p < rows.len() && rows[p] == out[j];
                assert(rows[p].key() == k);
                if p != i {
                    assert(rows[p].key() != rows[i].key());
                }
            }
            assert forall|k: Seq<char>|
                has_key(rows, k) && !pred(rows[index_of(rows, k)]) implies !#[trigger] has_key(
                out,
                k,
            ) by {
                let i = index_of(rows, k);
                if has_key(out, k) {
                    let j = index_of(out, k);
                    assert(pred(out[j]));
                    assert(rows.contains(out[j]));
                    let p = choose|p: int| 0 <= p < rows.len() && rows[p] == out[j];
                    assert(rows[p].key() == k);
                    if p != i {
                        assert(rows[p].key() != rows[i].key());
                    }
                }
            }
        }
    }
}

/// A table: rows in the order in which they were stored.
pub struct Table<R> {
    pub(crate) rows: Vec<R>,
}

impl<R> View for Table<R> {
    type V = Seq<R>;

    closed spec fn view(&self) -> Seq<R> {
        self.rows@
    }
}

impl<R: Row> Table<R> {
    /// A table without rows.
    pub fn new() -> (t: Self)
        ensures
            t@ == Seq::<R>::empty(),
    {
        Table { rows: Vec::new() }
    }

    /// The number of rows.
    pub fn len(&self) -> (n: usize)
        ensures
            n == self@.len(),
    {
        self.rows.len()
    }

    /// The row at a position.
    pub fn row(&self, i: usize) -> (r: &R)
        requires
            i < self@.len(),
        ensures
            *r == self@[i as int],
    {
        &self.rows[i]
    }

    /// The position of the first row with the key `id`.
    pub fn position(&self, id: &String) -> (r: Option<usize>)
        ensures
            r is Some <==> has_key(self@, id@),
            r matches Some(i) ==> i < self@.len() && self@[i as int].key() == id@,
            keys_distinct(self@) ==> (r matches Some(i) ==> i == index_of(self@, id@)),
    {
        let mut i: usize = 0;
        while i < self.rows.len()
            invariant
                i <= self.rows.len(),
                forall|k: int| 0 <= k < i ==> #[trigger] self.rows@[k].key() != id@,
            decreases self.rows.len() - i,
        {
            if *self.rows[i].id() == *id {
                proof {
                    assert(self@[i as int].key() == id@);
                    if keys_distinct(self@) {
                        let j = index_of(self@, id@);
                        if j != i {
                            assert(self@[j].key() != self@[i as int].key());
                        }
                    }
                }
                return Some(i);
            }
            i += 1;
        }
        None
    }

    /// Whether a row has the key `id`.
    pub fn contains(&self, id: &String) -> (r: bool)
        ensures
            r == has_key(self@, id@),
    {
        self.position(id).is_some()
    }

    /// A copy of the row with the key `id`.
    pub fn get(&self, id: &String) -> (r: Option<R>)
        requires
            keys_distinct(self@),
        ensures
            r == find(self@, id@),
    {
        match self.position(id) {
            Some(i) => Some(self.rows[i].copy()),
            None => None,
        }
    }

    /// Stores one more row, after those already stored.
    pub fn insert(&mut self, row: R)
        ensures
            final(self)@ == old(self)@.push(row),
    {
        self.rows.push(row);
    }

    /// Puts `row` in the place of the row at position `i`.
    pub fn replace(&mut self, i: usize, row: R)
        requires
            i < old(self)@.len(),
        ensures
            final(self)@ == old(self)@.update(i as int, row),
    {
        self.rows[i] = row;
    }

    /// Removes the rows with the key `id`; tells whether there was one.
    pub fn remove_key(&mut self, id: &String) -> (removed: bool)
        ensures
            final(self)@ == without_key(old(self)@, id@),
            removed == has_key(old(self)@, id@),
    {
        let mut kept: Vec<R> = Vec::new();
        let mut removed = false;
        let mut i: usize = 0;
        let ghost pred = has_other_key::<R>(id@);
        proof {
            reveal(Seq::filter);
            assert(self.rows@.take(0) =~= Seq::<R>::empty());
        }
        while i < self.rows.len()
            invariant
                i <= self.rows.len(),
                pred == has_other_key::<R>(id@),
                kept@ == self.rows@.take(i as int).filter(pred),
                removed == has_key(self.rows@.take(i as int), id@),
            decreases self.rows.len() - i,
        {
            proof {
                let before = self.rows@.take(i as int);
                assert(self.rows@.take(i + 1) == before.push(self.rows@[i as int]));
                before.lemma_filter_push(self.rows@[i as int], pred);
                if has_key(before, id@) {
                    let j = choose|j: int| 0 <= j < before.len() && #[trigger] before[j].key() == id@;
                    assert(self.rows@.take(i + 1)[j].key() == id@);
                }
                if has_key(self.rows@.take(i + 1), id@) && !has_key(before, id@) {
                    let j = choose|j: int|
                        0 <= j < i + 1 && #[trigger] self.rows@.take(i + 1)[j].key() == id@;
                    if j < i {
                        assert(before[j].key() == id@);
                    }
                }
            }
            if *self.rows[i].id() == *id {
                removed = true;
                proof {
                    assert(self.rows@.take(i + 1)[i as int].key() == id@);
                }
            } else {
                kept.push(self.rows[i].copy());
            }
            i += 1;
        }
        proof {
            assert(self.rows@.take(self.rows@.len() as int) == self.rows@);
        }
        self.rows = kept;
        removed
    }

    /// Removes the rows that `owner` owns.
    pub fn remove_owned(&mut self, owner: &String)
        ensures
            final(self)@ == not_owned_by(old(self)@, owner@),
    {
        let mut kept: Vec<R> = Vec::new();
        let mut i: usize = 0;
        let ghost pred = is_not_owned_by::<R>(owner@);
        proof {
            reveal(Seq::filter);
            assert(self.rows@.take(0) =~= Seq::<R>::empty());
        }
        while i < self.rows.len()
            invariant
                i <= self.rows.len(),
                pred == is_not_owned_by::<R>(owner@),
                kept@ == self.rows@.take(i as int).filter(pred),
            decreases self.rows.len() - i,
        {
            proof {
                let before = self.rows@.take(i as int);
                assert(self.rows@.take(i + 1) == before.push(self.rows@[i as int]));
                before.lemma_filter_push(self.rows@[i as int], pred);
            }
            if *self.rows[i].owner_id() != *owner {
                kept.push(self.rows[i].copy());
            }
            i += 1;
        }
        proof {
            assert(self.rows@.take(self.rows@.len() as int) == self.rows@);
        }
        self.rows = kept;
    }

    /// Removes the rows whose owner is not in `owners`.
    pub fn retain_owned<P: Row>(&mut self, owners: &Table<P>)
        ensures
            final(self)@ == surviving(old(self)@, owners@),
    {
        let mut kept: Vec<R> = Vec::new();
        let mut i: usize = 0;
        let ghost pred = has_owner_in::<R, P>(owners@);
        proof {
            reveal(Seq::filter);
            assert(self.rows@.take(0) =~= Seq::<R>::empty());
        }
        while i < self.rows.len()
            invariant
                i <= self.rows.len(),
                pred == has_owner_in::<R, P>(owners@),
                kept@ == self.rows@.take(i as int).filter(pred),
            decreases self.rows.len() - i,
        {
            proof {
                let before = self.rows@.take(i as int);
                assert(self.rows@.take(i + 1) == before.push(self.rows@[i as int]));
                before.lemma_filter_push(self.rows@[i as int], pred);
            }
            if owners.contains(self.rows[i].owner_id()) {
                kept.push(self.rows[i].copy());
            }
            i += 1;
        }
        proof {
            assert(self.rows@.take(self.rows@.len() as int) == self.rows@);
        }
        self.rows = kept;
    }

    /// Copies of all rows, in table order.
    pub fn all(&self) -> (out: Vec<R>)
        ensures
            out@ == self@,
    {
        let mut out: Vec<R> = Vec::new();
        let mut i: usize = 0;
        while i < self.rows.len()
            invariant
                i <= self.rows.len(),
                out@ == self.rows@.take(i as int),
            decreases self.rows.len() - i,
        {
            out.push(self.rows[i].copy());
            assert(self.rows@.take(i + 1) == self.rows@.take(i as int).push(self.rows@[i as int]));
            i += 1;
        }
        assert(self.rows@.take(self.rows@.len() as int) == self.rows@);
        out
    }

    /// Copies of the rows that `owner` owns, in table order.
    pub fn owned(&self, owner: &String) -> (out: Vec<R>)
        ensures
            out@ == owned_by(self@, owner@),
    {
        let mut out: Vec<R> = Vec::new();
        let mut i: usize = 0;
        let ghost pred = is_owned_by::<R>(owner@);
        proof {
            reveal(Seq::filter);
            assert(self.rows@.take(0) =~= Seq::<R>::empty());
        }
        while i < self.rows.len()
            invariant
                i <= self.rows.len(),
                pred == is_owned_by::<R>(owner@),
                out@ == self.rows@.take(i as int).filter(pred),
            decreases self.rows.len() - i,
        {
            proof {
                let before = self.rows@.take(i as int);
                assert(self.rows@.take(i + 1) == before.push(self.rows@[i as int]));
                before.lemma_filter_push(self.rows@[i as int], pred);
            }
            if *self.rows[i].owner_id() == *owner {
                out.push(self.rows[i].copy());
            }
            i += 1;
        }
        proof {
            assert(self.rows@.take(self.rows@.len() as int) == self.rows@);
        }
        out
    }
}

/// What a new row changes about what an owner owns: it comes last among the
/// rows of its owner, and no other owner owns more or less.
pub proof fn lemma_owned_push<R: Row>(rows: Seq<R>, row: R, owner: Seq<char>)
    ensures
        owned_by(rows.push(row), owner) == if row.owner() == owner {
            owned_by(rows, owner).push(row)
        } else {
            owned_by(rows, owner)
        },
{
    rows.lemma_filter_push(row, is_owned_by::<R>(owner));
}

/// What a filter that treats all rows of `owner` alike leaves of them: all
/// of them in their order where it keeps them, none where it does not.
pub proof fn lemma_owned_of_kept<R: Row>(
    rows: Seq<R>,
    keep: spec_fn(R) -> bool,
    owner: Seq<char>,
    kept: bool,
)
    requires
        forall|i: int| 0 <= i < rows.len() && (#[trigger] rows[i]).owner() == owner ==> keep(
            rows[i],
        ) == kept,
    ensures
        owned_by(rows.filter(keep), owner) == if kept {
            owned_by(rows, owner)
        } else {
            Seq::empty()
        },
    decreases rows.len(),
{
    reveal(Seq::filter);
    if rows.len() > 0 {
        let init = rows.drop_last();
        let last = rows.last();
        assert forall|i: int| 0 <= i < init.len() && (#[trigger] init[i]).owner() == owner implies keep(
            init[i],
        ) == kept by {
            assert(init[i] == rows[i]);
        }
        lemma_owned_of_kept(init, keep, owner, kept);
        assert(init.push(last) == rows);
        init.lemma_filter_push(last, keep);
        init.lemma_filter_push(last, is_owned_by::<R>(owner));
        if keep(last) {
            init.filter(keep).lemma_filter_push(last, is_owned_by::<R>(owner));
        }
        if last.owner() == owner {
            assert(rows[rows.len() - 1] == last);
        }
    } else {
        assert(rows.filter(keep) =~= Seq::<R>::empty());
        assert(owned_by(rows, owner) =~= Seq::<R>::empty());
        assert(owned_by(rows.filter(keep), owner) =~= Seq::<R>::empty());
    }
}

/// The place that `row` takes among rows in listing order: behind the last
/// of them that may stand before it.
pub open spec fn place_of<R: Row>(rows: Seq<R>, row: R) -> int
    decreases rows.len(),
{
    if rows.len() == 0 {
        0
    } else if rows.last().before(&row) {
        rows.len() as int
    } else {
        place_of(rows.drop_last(), row)
    }
}

/// The rows in listing order; rows that may stand either way are in the
/// order in which they come in `rows`.
pub open spec fn listed<R: Row>(rows: Seq<R>) -> Seq<R>
    decreases rows.len(),
{
    if rows.len() == 0 {
        Seq::empty()
    } else {
        let before = listed(rows.drop_last());
        before.insert(place_of(before, rows.last()), rows.last())
    }
}

/// The place of a row lies within the rows, behind a row that may stand
/// before it and before rows that may not.
pub proof fn lemma_place_of<R: Row>(rows: Seq<R>, row: R)
    ensures
        0 <= place_of(rows, row) <= rows.len(),
        place_of(rows, row) > 0 ==> rows[place_of(rows, row) - 1].before(&row),
        forall|k: int| place_of(rows, row) <= k < rows.len() ==> !(#[trigger] rows[k]).before(&row),
    decreases rows.len(),
{
    if rows.len() > 0 && !rows.last().before(&row) {
        let init = rows.drop_last();
        lemma_place_of(init, row);
        assert forall|k: int| place_of(rows, row) <= k < rows.len() implies !(
        #[trigger] rows[k]).before(&row) by {
            if k < init.len() {
                assert(rows[k] == init[k]);
            }
        }
        if place_of(rows, row) > 0 {
            assert(rows[place_of(rows, row) - 1] == init[place_of(init, row) - 1]);
        }
    }
}

/// A row put at its place among ordered rows leaves them ordered.
proof fn lemma_insert_ordered<R: Row>(prior: Seq<R>, row: R)
    requires
        ordered(prior),
    ensures
        ordered(prior.insert(place_of(prior, row), row)),
{
    lemma_place_of(prior, row);
    let p = place_of(prior, row);
    let next = prior.insert(p, row);
    assert forall|a: int, b: int|
        #![trigger next[a], next[b]]
        0 <= a < b < next.len() implies next[a].before(&next[b]) by {
        if b < p {
            assert(next[a] == prior[a] && next[b] == prior[b]);
        } else if b == p {
            assert(next[a] == prior[a]);
            assert(prior[p - 1].before(&row));
            if a < p - 1 {
                assert(prior[a].before(&prior[p - 1]));
                R::lemma_before_transitive(&prior[a], &prior[p - 1], &row);
            }
        } else if a == p {
            assert(next[b] == prior[b - 1]);
            assert(!prior[b - 1].before(&row));
            R::lemma_before_total(&prior[b - 1], &row);
        } else if a < p {
            assert(next[a] == prior[a] && next[b] == prior[b - 1]);
            assert(prior[a].before(&prior[b - 1]));
        } else {
            assert(next[a] == prior[a - 1] && next[b] == prior[b - 1]);
            assert(prior[a - 1].before(&prior[b - 1]));
        }
    }
}

/// The rows in listing order are a listing of the rows: the same rows, each
/// as often, every row standing before those behind it.
pub proof fn lemma_listed<R: Row>(rows: Seq<R>)
    ensures
        is_listing(listed(rows), rows),
        listed(rows).len() == rows.len(),
    decreases rows.len(),
{
    if rows.len() > 0 {
        let init = rows.drop_last();
        let before = listed(init);
        lemma_listed(init);
        lemma_place_of(before, rows.last());
        lemma_insert_ordered(before, rows.last());
        to_multiset_insert(before, place_of(before, rows.last()), rows.last());
        assert(init.push(rows.last()) == rows);
        to_multiset_build(init, rows.last());
    } else {
        assert(rows =~= Seq::<R>::empty());
    }
}

/// Rows that are in listing order already are listed as they are.
pub proof fn lemma_listed_of_ordered<R: Row>(rows: Seq<R>)
    requires
        ordered(rows),
    ensures
        listed(rows) == rows,
    decreases rows.len(),
{
    if rows.len() > 0 {
        let init = rows.drop_last();
        assert(ordered(init)) by {
            assert forall|i: int, j: int|
                #![trigger init[i], init[j]]
                0 <= i < j < init.len() implies init[i].before(&init[j]) by {
                assert(init[i] == rows[i] && init[j] == rows[j]);
            }
        }
        lemma_listed_of_ordered(init);
        if init.len() > 0 {
            assert(init.last() == rows[init.len() - 1]);
            assert(rows.last() == rows[rows.len() - 1]);
            assert(init.last().before(&rows.last()));
        }
        assert(place_of(init, rows.last()) == init.len());
        assert(init.insert(init.len() as int, rows.last()) =~= rows);
    } else {
        assert(rows =~= Seq::<R>::empty());
    }
}

/// Puts rows in listing order. Rows that may stand either way keep the order
/// in which they came.
pub fn sort_rows<R: Row>(rows: Vec<R>) -> (out: Vec<R>)
    ensures
        out@ == listed(rows@),
{
    let mut out: Vec<R> = Vec::new();
    let mut i: usize = 0;
    proof {
        assert(rows@.take(0) =~= Seq::<R>::empty());
    }
    while i < rows.len()
        invariant
            i <= rows.len(),
            out@ == listed(rows@.take(i as int)),
            out@.len() == i,
        decreases rows.len() - i,
    {
        let x = rows[i].copy();
        let ghost prior = out@;
        let mut p: usize = out.len();
        proof {
            assert(prior.take(p as int) == prior);
        }
        while p > 0 && !out[p - 1].comes_before(&x)
            invariant
                out@ == prior,
                p <= prior.len(),
                place_of(prior, x) == place_of(prior.take(p as int), x),
            decreases p,
        {
            proof {
                assert(prior.take(p as int).last() == prior[p - 1]);
                assert(prior.take(p as int).drop_last() == prior.take(p - 1));
            }
            p -= 1;
        }
        proof {
            if p > 0 {
                assert(prior.take(p as int).last() == prior[p - 1]);
            }
            assert(place_of(prior, x) == p);
            let next = rows@.take(i + 1);
            assert(next.drop_last() == rows@.take(i as int));
            assert(next.last() == x);
        }
        out.insert(p, x);
        i += 1;
    }
    proof {
        assert(rows@.take(rows@.len() as int) == rows@);
    }
    out
}

} // verus!
