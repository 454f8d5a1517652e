//! A keyed repository: an association list in which no key occurs twice.
//!
//! The model of a table is the sequence of its entries. The spec functions
//! [`lookup`], [`put`] and [`del`] read and change such a sequence as a map
//! is read and changed, and keep the order of the entries that stay.

use vstd::prelude::*;
use crate::ids::Key;

verus! {

/// Some entry of `s` has the key `k`.
pub open spec fn has_key<K, V>(s: Seq<(K, V)>, k: K) -> bool {
    exists|i: int| 0 <= i < s.len() && (#[trigger] s[i]).0 == k
}

/// No key occurs in two entries of `s`.
pub open spec fn distinct_keys<K, V>(s: Seq<(K, V)>) -> bool {
    forall|i: int, j: int|
        0 <= i < j < s.len() ==> (#[trigger] s[i]).0 != (#[trigger] s[j]).0
}

/// The place of an entry of `s` with the key `k`, where there is one.
pub open spec fn position<K, V>(s: Seq<(K, V)>, k: K) -> int {
    choose|i: int| 0 <= i < s.len() && (#[trigger] s[i]).0 == k
}

/// The value stored under `k`.
pub open spec fn lookup<K, V>(s: Seq<(K, V)>, k: K) -> Option<V> {
    if has_key(s, k) {
        Some(s[position(s, k)].1)
    } else {
        None
    }
}

/// `s` with `v` stored under `k`: in the place of the entry that had the
/// key, or at the end where none had it.
pub open spec fn put<K, V>(s: Seq<(K, V)>, k: K, v: V) -> Seq<(K, V)> {
    if has_key(s, k) {
        s.update(position(s, k), (k, v))
    } else {
        s.push((k, v))
    }
}

/// `s` without the entry under `k`.
pub open spec fn del<K, V>(s: Seq<(K, V)>, k: K) -> Seq<(K, V)> {
    if has_key(s, k) {
        s.remove(position(s, k))
    } else {
        s
    }
}

/// In a sequence of distinct keys, the place of a key is the one place
/// where it stands.
pub proof fn lemma_position<K, V>(s: Seq<(K, V)>, i: int)
    requires
        distinct_keys(s),
        0 <= i < s.len(),
    ensures
        has_key(s, s[i].0),
        position(s, s[i].0) == i,
        lookup(s, s[i].0) == Some(s[i].1),
{
    let k = s[i].0;
    let p = position(s, k);
    assert(0 <= p < s.len() && s[p].0 == k);
    if p < i {
        assert(s[p].0 != s[i].0);
    } else if i < p {
        assert(s[i].0 != s[p].0);
    }
}

/// `put` keeps the keys distinct, and a later `lookup` finds the new value
/// under `k` and the old values under every other key.
pub proof fn lemma_put<K, V>(s: Seq<(K, V)>, k: K, v: V)
    requires
        distinct_keys(s),
    ensures
        distinct_keys(put(s, k, v)),
        forall|q: K| #[trigger]
            lookup(put(s, k, v), q) == if q == k {
                Some(v)
            } else {
                lookup(s, q)
            },
        forall|q: K| #[trigger] has_key(put(s, k, v), q) == (q == k || has_key(s, q)),
{
    let t = put(s, k, v);
    if has_key(s, k) {
        let p = position(s, k);
        assert(t.len() == s.len());
        assert forall|i: int, j: int| 0 <= i < j < t.len() implies (#[trigger] t[i]).0 != (
        #[trigger] t[j]).0 by {
            assert(t[i].0 == s[i].0);
            assert(t[j].0 == s[j].0);
        }
        assert forall|q: K| #[trigger] has_key(t, q) == (q == k || has_key(s, q)) by {
            if has_key(s, q) {
                let i = position(s, q);
                assert(t[i].0 == q);
            }
            if has_key(t, q) {
                let i = position(t, q);
                assert(s[i].0 == q);
            }
            if q == k {
                assert(t[p].0 == k);
            }
        }
        assert forall|q: K| #[trigger]
            lookup(t, q) == if q == k {
                Some(v)
            } else {
                lookup(s, q)
            } by {
            if has_key(t, q) {
                let i = position(t, q);
                assert(s[i].0 == q);
                lemma_position(t, i);
                lemma_position(s, i);
            }
        }
    } else {
        assert forall|i: int, j: int| 0 <= i < j < t.len() implies (#[trigger] t[i]).0 != (
        #[trigger] t[j]).0 by {
            if j == s.len() {
                assert(s[i].0 != k);
            } else {
                assert(t[i].0 == s[i].0);
                assert(t[j].0 == s[j].0);
            }
        }
        assert forall|q: K| #[trigger] has_key(t, q) == (q == k || has_key(s, q)) by {
            if has_key(s, q) {
                let i = position(s, q);
                assert(t[i].0 == q);
            }
            if has_key(t, q) {
                let i = position(t, q);
                if i < s.len() {
                    assert(s[i].0 == q);
                }
            }
            if q == k {
                assert(t[s.len() as int].0 == k);
            }
        }
        assert forall|q: K| #[trigger]
            lookup(t, q) == if q == k {
                Some(v)
            } else {
                lookup(s, q)
            } by {
            if has_key(t, q) {
                let i = position(t, q);
                lemma_position(t, i);
                if i < s.len() {
                    assert(s[i].0 == q);
                    lemma_position(s, i);
                }
            }
        }
    }
}

/// `del` keeps the keys distinct, and a later `lookup` finds nothing under
/// `k` and the old values under every other key.
pub proof fn lemma_del<K, V>(s: Seq<(K, V)>, k: K)
    requires
        distinct_keys(s),
    ensures
        distinct_keys(del(s, k)),
        forall|q: K| #[trigger]
            lookup(del(s, k), q) == if q == k {
                None
            } else {
                lookup(s, q)
            },
        forall|q: K| #[trigger] has_key(del(s, k), q) == (q != k && has_key(s, q)),
{
    let t = del(s, k);
    if has_key(s, k) {
        let p = position(s, k);
        assert(0 <= p < s.len() && s[p].0 == k);
        assert forall|i: int| 0 <= i < t.len() implies #[trigger] t[i] == s[if i < p {
            i
        } else {
            i + 1
        }] by {}
        assert forall|i: int, j: int| 0 <= i < j < t.len() implies (#[trigger] t[i]).0 != (
        #[trigger] t[j]).0 by {
            let si = if i < p { i } else { i + 1 };
            let sj = if j < p { j } else { j + 1 };
            assert(t[i] == s[si]);
            assert(t[j] == s[sj]);
            assert(s[si].0 != s[sj].0);
        }
        assert forall|q: K| #[trigger] has_key(t, q) == (q != k && has_key(s, q)) by {
            if has_key(t, q) {
                let i = position(t, q);
                let si = if i < p { i } else { i + 1 };
                assert(t[i] == s[si]);
                assert(s[si].0 == q);
                if si < p {
                    assert(s[si].0 != s[p].0);
                } else {
                    assert(s[p].0 != s[si].0);
                }
            }
            if q != k && has_key(s, q) {
                let i = position(s, q);
                let ti = if i < p { i } else { i - 1 };
                assert(t[ti] == s[i]);
                assert(t[ti].0 == q);
            }
        }
        assert forall|q: K| #[trigger]
            lookup(t, q) == if q == k {
                None
            } else {
                lookup(s, q)
            } by {
            if has_key(t, q) {
                let i = position(t, q);
                let si = if i < p { i } else { i + 1 };
                assert(t[i] == s[si]);
                lemma_position(t, i);
                lemma_position(s, si);
            }
        }
    }
}

/// The sum of the weights `w` of the entries of `s`.
pub open spec fn sum_by<K, V>(s: Seq<(K, V)>, w: spec_fn(K, V) -> nat) -> nat
    decreases s.len(),
{
    if s.len() == 0 {
        0
    } else {
        sum_by(s.drop_last(), w) + w(s.last().0, s.last().1)
    }
}

/// The weight of the entry under `k`, and zero where there is none.
pub open spec fn weight_at<K, V>(s: Seq<(K, V)>, k: K, w: spec_fn(K, V) -> nat) -> nat {
    match lookup(s, k) {
        Some(v) => w(k, v),
        None => 0,
    }
}

proof fn lemma_sum_update<K, V>(s: Seq<(K, V)>, i: int, e: (K, V), w: spec_fn(K, V) -> nat)
    requires
        0 <= i < s.len(),
    ensures
        sum_by(s.update(i, e), w) == sum_by(s, w) - w(s[i].0, s[i].1) + w(e.0, e.1),
    decreases s.len(),
{
    let t = s.update(i, e);
    if i == s.len() - 1 {
        assert(t.drop_last() =~= s.drop_last());
    } else {
        assert(t.drop_last() =~= s.drop_last().update(i, e));
        lemma_sum_update(s.drop_last(), i, e, w);
    }
}

proof fn lemma_sum_remove<K, V>(s: Seq<(K, V)>, i: int, w: spec_fn(K, V) -> nat)
    requires
        0 <= i < s.len(),
    ensures
        sum_by(s.remove(i), w) == sum_by(s, w) - w(s[i].0, s[i].1),
    decreases s.len(),
{
    let t = s.remove(i);
    if i == s.len() - 1 {
        assert(t =~= s.drop_last());
    } else {
        assert(t.drop_last() =~= s.drop_last().remove(i));
        assert(t.last() == s.last());
        lemma_sum_remove(s.drop_last(), i, w);
    }
}

/// Storing a value changes the sum by the weight that comes less the
/// weight that goes.
pub proof fn lemma_sum_put<K, V>(s: Seq<(K, V)>, k: K, v: V, w: spec_fn(K, V) -> nat)
    requires
        distinct_keys(s),
    ensures
        sum_by(put(s, k, v), w) == sum_by(s, w) - weight_at(s, k, w) + w(k, v),
{
    if has_key(s, k) {
        let p = position(s, k);
        lemma_position(s, p);
        lemma_sum_update(s, p, (k, v), w);
    } else {
        assert(s.push((k, v)).drop_last() =~= s);
    }
}

/// Removing a value takes its weight from the sum.
pub proof fn lemma_sum_del<K, V>(s: Seq<(K, V)>, k: K, w: spec_fn(K, V) -> nat)
    requires
        distinct_keys(s),
    ensures
        sum_by(del(s, k), w) == sum_by(s, w) - weight_at(s, k, w),
{
    if has_key(s, k) {
        let p = position(s, k);
        lemma_position(s, p);
        lemma_sum_remove(s, p, w);
    }
}

/// No entry weighs more than all entries together.
pub proof fn lemma_sum_bounds<K, V>(s: Seq<(K, V)>, k: K, w: spec_fn(K, V) -> nat)
    requires
        distinct_keys(s),
    ensures
        weight_at(s, k, w) <= sum_by(s, w),
{
    lemma_sum_del(s, k, w);
}

/// No entry weighs anything: then all entries together weigh nothing.
pub proof fn lemma_sum_zero<K, V>(s: Seq<(K, V)>, w: spec_fn(K, V) -> nat)
    requires
        forall|i: int| 0 <= i < s.len() ==> w((#[trigger] s[i]).0, s[i].1) == 0,
    ensures
        sum_by(s, w) == 0,
    decreases s.len(),
{
    if s.len() > 0 {
        assert forall|i: int| 0 <= i < s.drop_last().len() implies w(
            (#[trigger] s.drop_last()[i]).0,
            s.drop_last()[i].1,
        ) == 0 by {
            assert(s.drop_last()[i] == s[i]);
        }
        lemma_sum_zero(s.drop_last(), w);
    }
}

/// The first `n` entries weigh what the first `n - 1` weigh and the next
/// one, and no more than all entries together.
pub proof fn lemma_sum_take<K, V>(s: Seq<(K, V)>, n: int, w: spec_fn(K, V) -> nat)
    requires
        0 <= n <= s.len(),
    ensures
        sum_by(s.take(n), w) <= sum_by(s, w),
        n > 0 ==> sum_by(s.take(n), w) == sum_by(s.take(n - 1), w) + w(s[n - 1].0, s[n - 1].1),
        sum_by(s.take(0), w) == 0,
    decreases s.len() - n,
{
    if n > 0 {
        assert(s.take(n).drop_last() =~= s.take(n - 1));
    }
    if n < s.len() {
        lemma_sum_take(s, n + 1, w);
    } else {
        assert(s.take(n) =~= s);
    }
}

/// `p` holds of every entry of `s`.
pub open spec fn every<K, V>(s: Seq<(K, V)>, p: spec_fn(K, V) -> bool) -> bool {
    forall|i: int| 0 <= i < s.len() ==> p((#[trigger] s[i]).0, s[i].1)
}

/// `p` holds of every value that a lookup in `s` finds.
pub open spec fn every_found<K, V>(s: Seq<(K, V)>, p: spec_fn(K, V) -> bool) -> bool {
    forall|k: K| #![trigger lookup(s, k)]
        match lookup(s, k) {
            Some(v) => p(k, v),
            None => true,
        }
}

/// Where the keys are distinct, what holds of every entry holds of every
/// value that a lookup finds, and the other way round.
pub proof fn lemma_every<K, V>(s: Seq<(K, V)>, p: spec_fn(K, V) -> bool)
    requires
        distinct_keys(s),
    ensures
        every(s, p) == every_found(s, p),
{
    if every(s, p) {
        assert forall|k: K| #![trigger lookup(s, k)]
            match lookup(s, k) {
                Some(v) => p(k, v),
                None => true,
            } by {
            if has_key(s, k) {
                let i = position(s, k);
                assert(0 <= i < s.len() && s[i].0 == k);
            }
        }
    }
    if every_found(s, p) {
        assert forall|i: int| 0 <= i < s.len() implies p((#[trigger] s[i]).0, s[i].1) by {
            lemma_position(s, i);
            assert(lookup(s, s[i].0) == Some(s[i].1));
        }
    }
}

/// A keyed repository of values of type `V`.
pub struct Table<K, V> {
    entries: Vec<(K, V)>,
}

impl<K: Key, V: Copy> View for Table<K, V> {
    type V = Seq<(K, V)>;

    closed spec fn view(&self) -> Seq<(K, V)> {
        self.entries@
    }
}

impl<K: Key, V: Copy> Table<K, V> {
    /// No key occurs twice.
    pub open spec fn wf(&self) -> bool {
        distinct_keys(self@)
    }

    /// An empty table.
    pub fn new() -> (t: Self)
        ensures
            t@ == Seq::<(K, V)>::empty(),
            t.wf(),
    {
        Table { entries: Vec::new() }
    }

    /// The number of entries.
    pub fn len(&self) -> (n: usize)
        ensures
            n == self@.len(),
    {
        self.entries.len()
    }

    /// The entry in the place `i`.
    pub fn entry(&self, i: usize) -> (e: (K, V))
        requires
            i < self@.len(),
        ensures
            e == self@[i as int],
    {
        self.entries[i]
    }

    /// The entries, in their order.
    pub fn entries(&self) -> (entries: Vec<(K, V)>)
        ensures
            entries@ == self@,
    {
        let mut entries: Vec<(K, V)> = Vec::new();
        let mut i: usize = 0;
        while i < self.entries.len()
            invariant
                i <= self.entries.len(),
                entries@ == self@.take(i as int),
            decreases self.entries.len() - i,
        {
            entries.push(self.entries[i]);
            assert(self@.take(i + 1) == self@.take(i as int).push(self@[i as int]));
            i = i + 1;
        }
        assert(self@.take(self@.len() as int) == self@);
        entries
    }

    /// The table with the entries of `entries`, in their order, where no
    /// key occurs twice among them; and nothing where one does.
    pub fn from_entries(entries: &Vec<(K, V)>) -> (table: Option<Self>)
        ensures
            table.is_some() == distinct_keys(entries@),
            table matches Some(t) ==> t@ == entries@ && t.wf(),
    {
        let mut table: Self = Table::new();
        let mut i: usize = 0;
        while i < entries.len()
            invariant
                i <= entries.len(),
                table.wf(),
                table@ == entries@.take(i as int),
            decreases entries.len() - i,
        {
            let (key, value) = entries[i];
            if table.contains_key(&key) {
                proof {
                    let j = position(table@, key);
                    assert(0 <= j < i && table@[j].0 == key);
                    assert(entries@[j] == entries@.take(i as int)[j]);
                    assert(entries@[j].0 == entries@[i as int].0);
                }
                return None;
            }
            table.insert(key, value);
            assert(entries@.take(i + 1) == entries@.take(i as int).push(entries@[i as int]));
            i = i + 1;
        }
        assert(entries@.take(entries@.len() as int) == entries@);
        Some(table)
    }

    /// The place of the entry under `key`, or the number of entries where
    /// there is none.
    fn find(&self, key: &K) -> (i: usize)
        requires
            self.wf(),
        ensures
            has_key(self@, *key) ==> i == position(self@, *key),
            !has_key(self@, *key) ==> i == self@.len(),
            i <= self@.len(),
    {
        let mut i: usize = 0;
        while i < self.entries.len()
            invariant
                self.wf(),
                i <= self.entries.len(),
                forall|j: int| 0 <= j < i ==> (#[trigger] self@[j]).0 != *key,
            decreases self.entries.len() - i,
        {
            if self.entries[i].0.same(key) {
                proof {
                    lemma_position(self@, i as int);
                }
                return i;
            }
            i = i + 1;
        }
        i
    }

    /// Whether a value is stored under `key`.
    pub fn contains_key(&self, key: &K) -> (b: bool)
        requires
            self.wf(),
        ensures
            b == has_key(self@, *key),
    {
        self.find(key) < self.entries.len()
    }

    /// The value stored under `key`.
    pub fn get(&self, key: &K) -> (r: Option<V>)
        requires
            self.wf(),
        ensures
            r == lookup(self@, *key),
    {
        let i = self.find(key);
        if i < self.entries.len() {
            Some(self.entries[i].1)
        } else {
            None
        }
    }

    /// Stores `value` under `key`, in the place of the value that was there.
    pub fn insert(&mut self, key: K, value: V)
        requires
            old(self).wf(),
        ensures
            final(self)@ == put(old(self)@, key, value),
            final(self).wf(),
    {
        proof {
            lemma_put(self@, key, value);
        }
        let i = self.find(&key);
        if i < self.entries.len() {
            self.entries.set(i, (key, value));
        } else {
            self.entries.push((key, value));
        }
    }

    /// Removes the value stored under `key`, if there is one.
    pub fn remove(&mut self, key: &K)
        requires
            old(self).wf(),
        ensures
            final(self)@ == del(old(self)@, *key),
            final(self).wf(),
    {
        proof {
            lemma_del(self@, *key);
        }
        let i = self.find(key);
        if i < self.entries.len() {
            self.entries.remove(i);
        }
    }
}

} // verus!
