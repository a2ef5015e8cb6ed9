//! An insertion-ordered map from strings to strings. Inserting an existing
//! key overwrites its value in place, so keys stay unique and the order in
//! which distinct keys first arrived is kept; that order is the order in
//! which entries are later written to the wire.

use vstd::prelude::*;
use crate::text::str_eq;

verus! {

/// No key occurs twice.
pub open spec fn keys_unique<V>(m: Seq<(Seq<char>, V)>) -> bool {
    forall|i: int, j: int|
        0 <= i < m.len() && 0 <= j < m.len() && i != j ==> (#[trigger] m[i]).0 != (
        #[trigger] m[j]).0
}

/// `m` with `k` bound to `v`: the first pair carrying `k` is overwritten in
/// place, and a fresh key goes to the back.
pub open spec fn map_insert<V>(m: Seq<(Seq<char>, V)>, k: Seq<char>, v: V) -> Seq<(Seq<char>, V)>
    decreases m.len(),
{
    if m.len() == 0 {
        seq![(k, v)]
    } else if m[0].0 == k {
        seq![(k, v)] + m.drop_first()
    } else {
        seq![m[0]] + map_insert(m.drop_first(), k, v)
    }
}

/// The value bound to `k` in `m`, if any: the first pair carrying `k`.
pub open spec fn map_get<V>(m: Seq<(Seq<char>, V)>, k: Seq<char>) -> Option<V>
    decreases m.len(),
{
    if m.len() == 0 {
        None
    } else if m[0].0 == k {
        Some(m[0].1)
    } else {
        map_get(m.drop_first(), k)
    }
}

/// The first `i` pairs of `ps` inserted into `m`, in order.
pub open spec fn map_insert_all<V>(
    m: Seq<(Seq<char>, V)>,
    ps: Seq<(Seq<char>, V)>,
    i: int,
) -> Seq<(Seq<char>, V)>
    decreases i,
{
    if i <= 0 {
        m
    } else {
        map_insert(map_insert_all(m, ps, i - 1), ps[i - 1].0, ps[i - 1].1)
    }
}

/// A string-to-string map that keeps insertion order.
pub struct StringMap {
    pairs: Vec<(String, String)>,
}

impl View for StringMap {
    type V = Seq<(Seq<char>, Seq<char>)>;

    closed spec fn view(&self) -> Seq<(Seq<char>, Seq<char>)> {
        self.pairs.deep_view()
    }
}

impl DeepView for StringMap {
    type V = Seq<(Seq<char>, Seq<char>)>;

    open spec fn deep_view(&self) -> Seq<(Seq<char>, Seq<char>)> {
        self.view()
    }
}

impl StringMap {
    /// Keys are unique.
    pub open spec fn wf(&self) -> bool {
        keys_unique(self@)
    }

    /// An empty map.
    pub fn new() -> (r: StringMap)
        ensures
            r@ == Seq::<(Seq<char>, Seq<char>)>::empty(),
            r.wf(),
    {
        let r = StringMap { pairs: Vec::new() };
        assert(r@ =~= Seq::<(Seq<char>, Seq<char>)>::empty());
        r
    }

    /// The number of entries.
    pub fn len(&self) -> (r: usize)
        ensures
            r == self@.len(),
    {
        self.pairs.len()
    }

    /// The key of the entry at `i`, in insertion order.
    pub fn key_at(&self, i: usize) -> (r: &String)
        requires
            i < self@.len(),
        ensures
            r@ == self@[i as int].0,
    {
        &self.pairs[i].0
    }

    /// The value of the entry at `i`, in insertion order.
    pub fn value_at(&self, i: usize) -> (r: &String)
        requires
            i < self@.len(),
        ensures
            r@ == self@[i as int].1,
    {
        &self.pairs[i].1
    }

    /// Binds `k` to `v`, overwriting in place if `k` is already present.
    pub fn insert(&mut self, k: String, v: String)
        requires
            old(self).wf(),
        ensures
            final(self)@ == map_insert(old(self)@, k@, v@),
            final(self).wf(),
    {
        let n = self.pairs.len();
        let mut i: usize = 0;
        while i < n
            invariant
                n == self@.len(),
                0 <= i <= n,
                self@ == old(self)@,
                keys_unique(self@),
                forall|j: int| 0 <= j < i ==> (#[trigger] self@[j]).0 != k@,
            decreases n - i,
        {
            if str_eq(self.pairs[i].0.as_str(), k.as_str()) {
                let ghost old_view = self@;
                self.pairs[i] = (k, v);
                assert(self@ =~= old_view.update(i as int, (k@, v@)));
                proof {
                    lemma_map_insert_at(old_view, k@, v@, i as int);
                    lemma_insert_unique(old_view, k@, v@);
                }
                return;
            }
            i += 1;
        }
        let ghost old_view = self@;
        self.pairs.push((k, v));
        assert(self@ =~= old_view.push((k@, v@)));
        proof {
            lemma_map_insert_fresh(old_view, k@, v@);
            lemma_insert_unique(old_view, k@, v@);
        }
    }

    /// The value bound to `k`, cloned out, if `k` is present.
    pub fn get(&self, k: &str) -> (r: Option<String>)
        ensures
            match r {
                Some(v) => map_get(self@, k@) == Some(v@),
                None => map_get(self@, k@) is None,
            },
    {
        let n = self.pairs.len();
        let mut i: usize = 0;
        while i < n
            invariant
                n == self@.len(),
                0 <= i <= n,
                forall|j: int| 0 <= j < i ==> (#[trigger] self@[j]).0 != k@,
            decreases n - i,
        {
            if str_eq(self.pairs[i].0.as_str(), k) {
                proof {
                    lemma_map_get_at(self@, k@, i as int);
                }
                return Some(self.pairs[i].1.clone());
            }
            i += 1;
        }
        proof {
            lemma_map_get_missing(self@, k@);
        }
        None
    }
}

pub proof fn lemma_map_insert_at<V>(m: Seq<(Seq<char>, V)>, k: Seq<char>, v: V, i: int)
    requires
        0 <= i < m.len(),
        m[i].0 == k,
        forall|j: int| 0 <= j < i ==> (#[trigger] m[j]).0 != k,
    ensures
        map_insert(m, k, v) == m.update(i, (k, v)),
    decreases i,
{
    if i == 0 {
        assert(map_insert(m, k, v) =~= m.update(0, (k, v)));
    } else {
        lemma_map_insert_at(m.drop_first(), k, v, i - 1);
        assert(map_insert(m, k, v) =~= m.update(i, (k, v)));
    }
}

pub proof fn lemma_map_insert_fresh<V>(m: Seq<(Seq<char>, V)>, k: Seq<char>, v: V)
    requires
        forall|j: int| 0 <= j < m.len() ==> (#[trigger] m[j]).0 != k,
    ensures
        map_insert(m, k, v) == m.push((k, v)),
    decreases m.len(),
{
    if m.len() == 0 {
        assert(map_insert(m, k, v) =~= m.push((k, v)));
    } else {
        lemma_map_insert_fresh(m.drop_first(), k, v);
        assert(map_insert(m, k, v) =~= m.push((k, v)));
    }
}

pub proof fn lemma_map_get_at<V>(m: Seq<(Seq<char>, V)>, k: Seq<char>, i: int)
    requires
        0 <= i < m.len(),
        m[i].0 == k,
        forall|j: int| 0 <= j < i ==> (#[trigger] m[j]).0 != k,
    ensures
        map_get(m, k) == Some(m[i].1),
    decreases i,
{
    if i > 0 {
        lemma_map_get_at(m.drop_first(), k, i - 1);
    }
}

pub proof fn lemma_map_get_missing<V>(m: Seq<(Seq<char>, V)>, k: Seq<char>)
    requires
        forall|j: int| 0 <= j < m.len() ==> (#[trigger] m[j]).0 != k,
    ensures
        map_get(m, k) is None,
    decreases m.len(),
{
    if m.len() > 0 {
        lemma_map_get_missing(m.drop_first(), k);
    }
}

/// Inserting never breaks key uniqueness.
pub proof fn lemma_insert_unique<V>(m: Seq<(Seq<char>, V)>, k: Seq<char>, v: V)
    requires
        keys_unique(m),
    ensures
        keys_unique(map_insert(m, k, v)),
    decreases m.len(),
{
    if m.len() == 0 {
    } else if m[0].0 == k {
        let r = seq![(k, v)] + m.drop_first();
        assert forall|i: int, j: int|
            0 <= i < r.len() && 0 <= j < r.len() && i != j implies (#[trigger] r[i]).0 != (
        #[trigger] r[j]).0 by {
            if i == 0 {
                assert(r[j] == m[j]);
                assert(m[0].0 != m[j].0);
            } else if j == 0 {
                assert(r[i] == m[i]);
                assert(m[0].0 != m[i].0);
            } else {
                assert(r[i] == m[i] && r[j] == m[j]);
            }
        }
    } else {
        assert(keys_unique(m.drop_first())) by {
            assert(forall|i: int|
                0 <= i < m.drop_first().len() ==> #[trigger] m.drop_first()[i] == m[i + 1]);
        }
        lemma_insert_unique(m.drop_first(), k, v);
        let rest = map_insert(m.drop_first(), k, v);
        let r = seq![m[0]] + rest;
        lemma_insert_keys(m.drop_first(), k, v);
        assert forall|i: int, j: int|
            0 <= i < r.len() && 0 <= j < r.len() && i != j implies (#[trigger] r[i]).0 != (
        #[trigger] r[j]).0 by {
            if i == 0 {
                assert(r[j] == rest[j - 1]);
            } else if j == 0 {
                assert(r[i] == rest[i - 1]);
            } else {
                assert(r[i] == rest[i - 1] && r[j] == rest[j - 1]);
            }
        }
    }
}

/// Every key of the inserted map is an old key or the new one.
pub proof fn lemma_insert_keys<V>(m: Seq<(Seq<char>, V)>, k: Seq<char>, v: V)
    ensures
        forall|i: int|
            0 <= i < map_insert(m, k, v).len() ==> ((#[trigger] map_insert(m, k, v)[i]).0 == k
                || exists|j: int| 0 <= j < m.len() && (#[trigger] m[j]).0 == map_insert(m, k, v)[i].0),
    decreases m.len(),
{
    if m.len() == 0 {
    } else if m[0].0 == k {
        assert forall|i: int| 0 <= i < map_insert(m, k, v).len() implies ((#[trigger] map_insert(
            m,
            k,
            v,
        )[i]).0 == k || exists|j: int|
            0 <= j < m.len() && (#[trigger] m[j]).0 == map_insert(m, k, v)[i].0) by {
            if i > 0 {
                assert(map_insert(m, k, v)[i] == m[i]);
                assert(m[i].0 == map_insert(m, k, v)[i].0);
            }
        }
    } else {
        lemma_insert_keys(m.drop_first(), k, v);
        let rest = map_insert(m.drop_first(), k, v);
        assert forall|i: int| 0 <= i < map_insert(m, k, v).len() implies ((#[trigger] map_insert(
            m,
            k,
            v,
        )[i]).0 == k || exists|j: int|
            0 <= j < m.len() && (#[trigger] m[j]).0 == map_insert(m, k, v)[i].0) by {
            if i == 0 {
                assert(m[0].0 == map_insert(m, k, v)[0].0);
            } else {
                assert(map_insert(m, k, v)[i] == rest[i - 1]);
                if rest[i - 1].0 != k {
                    let j = choose|j: int|
                        0 <= j < m.drop_first().len() && (#[trigger] m.drop_first()[j]).0 == rest[i
                            - 1].0;
                    assert(m[j + 1].0 == map_insert(m, k, v)[i].0);
                }
            }
        }
    }
}

} // verus!
