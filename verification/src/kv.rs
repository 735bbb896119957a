//! An isolated key-value namespace of the durable store: records keyed by
//! task id, with a `Map` view from key characters to record bytes.

use vstd::prelude::*;
use vstd::slice::slice_to_vec;

verus! {

/// One namespace: a sequence of entries in strictly ascending key order.
pub struct KvNamespace {
    entries: Vec<(String, Vec<u8>)>,
}

/// Strict lexicographic order on keys, by code point: the order in which a
/// scan yields the namespace's records.
pub open spec fn chars_lt(a: Seq<char>, b: Seq<char>) -> bool
    decreases a.len(),
{
    if b.len() == 0 {
        false
    } else if a.len() == 0 {
        true
    } else if a[0] != b[0] {
        a[0] < b[0]
    } else {
        chars_lt(a.drop_first(), b.drop_first())
    }
}

/// The key order is irreflexive: no key orders before itself.
pub proof fn lemma_chars_lt_irrefl(a: Seq<char>)
    ensures
        !chars_lt(a, a),
    decreases a.len(),
{
    if a.len() > 0 {
        lemma_chars_lt_irrefl(a.drop_first());
    }
}

/// The key order is total: of two keys, one orders before the other or they
/// are equal.
pub proof fn lemma_chars_lt_connex(a: Seq<char>, b: Seq<char>)
    ensures
        chars_lt(a, b) || chars_lt(b, a) || a == b,
    decreases a.len(),
{
    if a.len() == 0 && b.len() == 0 {
        assert(a =~= b);
    } else if a.len() > 0 && b.len() > 0 && a[0] == b[0] {
        lemma_chars_lt_connex(a.drop_first(), b.drop_first());
        if a.drop_first() == b.drop_first() {
            assert forall|i: int| 0 <= i < a.len() implies a[i] == b[i] by {
                if i > 0 {
                    assert(a[i] == a.drop_first()[i - 1]);
                    assert(b[i] == b.drop_first()[i - 1]);
                }
            }
            assert(a =~= b);
        }
    }
}

/// The key order is transitive.
pub proof fn lemma_chars_lt_trans(a: Seq<char>, b: Seq<char>, c: Seq<char>)
    requires
        chars_lt(a, b),
        chars_lt(b, c),
    ensures
        chars_lt(a, c),
    decreases a.len(),
{
    if a.len() > 0 && b.len() > 0 && c.len() > 0 && a[0] == b[0] && b[0] == c[0] {
        lemma_chars_lt_trans(a.drop_first(), b.drop_first(), c.drop_first());
    }
}

spec fn keys_sorted(s: Seq<(String, Vec<u8>)>) -> bool {
    forall|i: int, j: int|
        0 <= i < j < s.len() ==> chars_lt((#[trigger] s[i]).0@, (#[trigger] s[j]).0@)
}

spec fn keys_distinct(s: Seq<(String, Vec<u8>)>) -> bool {
    forall|i: int, j: int|
        0 <= i < j < s.len() ==> (#[trigger] s[i]).0@ != (#[trigger] s[j]).0@
}

proof fn lemma_sorted_distinct(s: Seq<(String, Vec<u8>)>)
    requires
        keys_sorted(s),
    ensures
        keys_distinct(s),
{
    assert forall|i: int, j: int| 0 <= i < j < s.len() implies (#[trigger] s[i]).0@ != (
    #[trigger] s[j]).0@ by {
        if s[i].0@ == s[j].0@ {
            lemma_chars_lt_irrefl(s[i].0@);
        }
    }
}

/// Whether `a` orders strictly before `b` in key order.
pub fn str_lt(a: &str, b: &str) -> (r: bool)
    ensures
        r == chars_lt(a@, b@),
{
    let an = a.unicode_len();
    let bn = b.unicode_len();
    proof {
        assert(a@.skip(0) =~= a@);
        assert(b@.skip(0) =~= b@);
    }
    let mut i: usize = 0;
    while i < an && i < bn
        invariant
            i <= an,
            i <= bn,
            an == a@.len(),
            bn == b@.len(),
            chars_lt(a@, b@) == chars_lt(a@.skip(i as int), b@.skip(i as int)),
        decreases an - i,
    {
        let ca = a.get_char(i);
        let cb = b.get_char(i);
        if ca != cb {
            proof {
                assert(a@.skip(i as int)[0] == ca && b@.skip(i as int)[0] == cb);
            }
            return (ca as u32) < (cb as u32);
        }
        proof {
            assert(a@.skip(i as int).drop_first() =~= a@.skip(i + 1));
            assert(b@.skip(i as int).drop_first() =~= b@.skip(i + 1));
            assert(a@.skip(i as int)[0] == b@.skip(i as int)[0]);
        }
        i += 1;
    }
    proof {
        assert(a@.skip(i as int).len() == an - i && b@.skip(i as int).len() == bn - i);
    }
    an < bn
}

spec fn has_key(s: Seq<(String, Vec<u8>)>, k: Seq<char>) -> bool {
    exists|i: int| 0 <= i < s.len() && (#[trigger] s[i]).0@ == k
}

spec fn value_for(s: Seq<(String, Vec<u8>)>, k: Seq<char>) -> Seq<u8> {
    let i = choose|i: int| 0 <= i < s.len() && (#[trigger] s[i]).0@ == k;
    s[i].1@
}

spec fn seq_contents(s: Seq<(String, Vec<u8>)>) -> Map<Seq<char>, Seq<u8>> {
    Map::new(|k: Seq<char>| has_key(s, k), |k: Seq<char>| value_for(s, k))
}

proof fn lemma_contents_index(s: Seq<(String, Vec<u8>)>, i: int)
    requires
        keys_distinct(s),
        0 <= i < s.len(),
    ensures
        seq_contents(s).contains_key(s[i].0@),
        seq_contents(s)[s[i].0@] == s[i].1@,
{
    assert(has_key(s, s[i].0@));
    let j = choose|j: int| 0 <= j < s.len() && (#[trigger] s[j]).0@ == s[i].0@;
    assert(j == i);
}

proof fn lemma_contents_remove(s: Seq<(String, Vec<u8>)>, i: int)
    requires
        keys_distinct(s),
        0 <= i < s.len(),
    ensures
        keys_distinct(s.remove(i)),
        seq_contents(s.remove(i)) =~= seq_contents(s).remove(s[i].0@),
{
    let t = s.remove(i);
    assert forall|k: Seq<char>| #[trigger] has_key(t, k) implies has_key(s, k) && k != s[i].0@ by {
        let j = choose|j: int| 0 <= j < t.len() && (#[trigger] t[j]).0@ == k;
        let j0 = if j < i {
            j
        } else {
            j + 1
        };
        assert(s[j0] == t[j]);
        assert(has_key(s, k));
    }
    assert forall|k: Seq<char>| has_key(s, k) && k != s[i].0@ implies #[trigger] has_key(t, k) by {
        let j = choose|j: int| 0 <= j < s.len() && (#[trigger] s[j]).0@ == k;
        let j0 = if j < i {
            j
        } else {
            j - 1
        };
        assert(t[j0] == s[j]);
        assert(has_key(t, k));
    }
    assert forall|k: Seq<char>| #[trigger] has_key(t, k) implies value_for(t, k) == value_for(s, k) by {
        let j = choose|j: int| 0 <= j < t.len() && (#[trigger] t[j]).0@ == k;
        let j2 = choose|j2: int| 0 <= j2 < s.len() && (#[trigger] s[j2]).0@ == k;
        let j0 = if j < i {
            j
        } else {
            j + 1
        };
        assert(s[j0] == t[j]);
        assert(j2 == j0);
    }
}

proof fn lemma_sorted_remove(s: Seq<(String, Vec<u8>)>, i: int)
    requires
        keys_sorted(s),
        0 <= i < s.len(),
    ensures
        keys_sorted(s.remove(i)),
{
    let t = s.remove(i);
    assert forall|x: int, y: int| 0 <= x < y < t.len() implies chars_lt(
        (#[trigger] t[x]).0@,
        (#[trigger] t[y]).0@,
    ) by {
        let x0 = if x < i {
            x
        } else {
            x + 1
        };
        let y0 = if y < i {
            y
        } else {
            y + 1
        };
        assert(t[x] == s[x0] && t[y] == s[y0]);
    }
}

proof fn lemma_contents_insert(s: Seq<(String, Vec<u8>)>, i: int, k: String, v: Vec<u8>)
    requires
        keys_distinct(s),
        !has_key(s, k@),
        0 <= i <= s.len(),
    ensures
        keys_distinct(s.insert(i, (k, v))),
        seq_contents(s.insert(i, (k, v))) =~= seq_contents(s).insert(k@, v@),
{
    let t = s.insert(i, (k, v));
    assert(t[i] == (k, v));
    assert forall|x: int| 0 <= x < s.len() implies (#[trigger] s[x]).0@ != k@ by {
        if s[x].0@ == k@ {
            assert(has_key(s, k@));
        }
    }
    assert forall|x: int, y: int| 0 <= x < y < t.len() implies (#[trigger] t[x]).0@ != (
    #[trigger] t[y]).0@ by {
        let x0 = if x < i {
            x
        } else {
            x - 1
        };
        let y0 = if y < i {
            y
        } else {
            y - 1
        };
        if x != i && y != i {
            assert(t[x] == s[x0] && t[y] == s[y0]);
        } else if x == i {
            assert(t[y] == s[y0]);
        } else {
            assert(t[x] == s[x0]);
        }
    }
    assert(has_key(t, k@));
    assert forall|q: Seq<char>| #[trigger] has_key(t, q) && q != k@ implies has_key(s, q) by {
        let j = choose|j: int| 0 <= j < t.len() && (#[trigger] t[j]).0@ == q;
        let j0 = if j < i {
            j
        } else {
            j - 1
        };
        assert(t[j] == s[j0]);
    }
    assert forall|q: Seq<char>| #[trigger] has_key(s, q) implies has_key(t, q) by {
        let j = choose|j: int| 0 <= j < s.len() && (#[trigger] s[j]).0@ == q;
        let j1 = if j < i {
            j
        } else {
            j + 1
        };
        assert(t[j1] == s[j]);
    }
    assert forall|q: Seq<char>| #[trigger] has_key(t, q) implies value_for(t, q) == seq_contents(
        s,
    ).insert(k@, v@)[q] by {
        let j = choose|j: int| 0 <= j < t.len() && (#[trigger] t[j]).0@ == q;
        if q == k@ {
            assert(j == i) by {
                if j != i {
                    let j0 = if j < i {
                        j
                    } else {
                        j - 1
                    };
                    assert(t[j] == s[j0]);
                }
            }
            assert(value_for(t, q) == v@);
        } else {
            let j0 = if j < i {
                j
            } else {
                j - 1
            };
            assert(t[j] == s[j0]);
            let j2 = choose|j2: int| 0 <= j2 < s.len() && (#[trigger] s[j2]).0@ == q;
            assert(j2 == j0);
            assert(value_for(t, q) == s[j0].1@);
            lemma_contents_index(s, j0);
        }
    }
}

impl KvNamespace {
    /// The namespace's well-formedness: entries stand in strictly ascending
    /// key order, so every key occurs at most once.
    pub closed spec fn wf(self) -> bool {
        keys_sorted(self.entries@)
    }

    /// The mathematical contents of the namespace.
    pub closed spec fn contents(self) -> Map<Seq<char>, Seq<u8>> {
        seq_contents(self.entries@)
    }

    /// A fresh, empty namespace.
    pub fn new() -> (r: KvNamespace)
        ensures
            r.wf(),
            r.contents() =~= Map::<Seq<char>, Seq<u8>>::empty(),
    {
        let r = KvNamespace { entries: Vec::new() };
        proof {
            assert forall|k: Seq<char>| !has_key(r.entries@, k) by {}
        }
        r
    }

    fn find(&self, k: &String) -> (r: Option<usize>)
        ensures
            match r {
                Some(i) => 0 <= i < self.entries@.len() && self.entries@[i as int].0@ == k@,
                None => !has_key(self.entries@, k@),
            },
    {
        let n = self.entries.len();
        let mut i: usize = 0;
        while i < n
            invariant
                i <= n,
                n == self.entries@.len(),
                forall|j: int| 0 <= j < i ==> (#[trigger] self.entries@[j]).0@ != k@,
            decreases n - i,
        {
            let e = vstd::std_specs::vec::vec_index(&self.entries, i);
            if e.0 == *k {
                return Some(i);
            }
            i += 1;
        }
        None
    }

    /// Whether a record is stored under `k`.
    pub fn has(&self, k: &String) -> (r: bool)
        requires
            self.wf(),
        ensures
            r == self.contents().contains_key(k@),
    {
        match self.find(k) {
            Some(i) => {
                proof {
                    lemma_sorted_distinct(self.entries@);
                    lemma_contents_index(self.entries@, i as int);
                }
                true
            },
            None => false,
        }
    }

    /// The record stored under `k`, if any.
    pub fn get(&self, k: &String) -> (r: Option<Vec<u8>>)
        requires
            self.wf(),
        ensures
            match r {
                Some(v) => self.contents().contains_key(k@) && v@ == self.contents()[k@],
                None => !self.contents().contains_key(k@),
            },
    {
        match self.find(k) {
            Some(i) => {
                proof {
                    lemma_sorted_distinct(self.entries@);
                    lemma_contents_index(self.entries@, i as int);
                }
                let e = vstd::std_specs::vec::vec_index(&self.entries, i);
                Some(slice_to_vec(e.1.as_slice()))
            },
            None => None,
        }
    }

    /// Stores `v` under `k`, overwriting any previous record and keeping the
    /// entries in key order.
    pub fn put(&mut self, k: String, v: Vec<u8>)
        requires
            old(self).wf(),
        ensures
            final(self).wf(),
            final(self).contents() =~= old(self).contents().insert(k@, v@),
    {
        proof {
            lemma_sorted_distinct(self.entries@);
        }
        let ghost s0 = self.entries@;
        let n = self.entries.len();
        let mut idx: usize = 0;
        while idx < n && str_lt(
            vstd::std_specs::vec::vec_index(&self.entries, idx).0.as_str(),
            k.as_str(),
        )
            invariant
                idx <= n,
                n == self.entries@.len(),
                self.entries@ == s0,
                forall|j: int| 0 <= j < idx ==> chars_lt((#[trigger] s0[j]).0@, k@),
            decreases n - idx,
        {
            idx += 1;
        }
        if idx < n && vstd::std_specs::vec::vec_index(&self.entries, idx).0 == k {
            // same key: replace the record in place
            proof {
                lemma_contents_remove(s0, idx as int);
                lemma_sorted_remove(s0, idx as int);
            }
            self.entries.remove(idx);
            let ghost s1 = self.entries@;
            proof {
                assert(!has_key(s1, k@)) by {
                    if has_key(s1, k@) {
                        assert(seq_contents(s1).contains_key(k@));
                    }
                }
                lemma_sorted_distinct(s1);
                lemma_contents_insert(s1, idx as int, k, v);
                assert forall|x: int, y: int|
                    0 <= x < y < s1.insert(idx as int, (k, v)).len() implies chars_lt(
                    (#[trigger] s1.insert(idx as int, (k, v))[x]).0@,
                    (#[trigger] s1.insert(idx as int, (k, v))[y]).0@,
                ) by {
                    let t = s1.insert(idx as int, (k, v));
                    let x0 = if x < idx {
                        x
                    } else {
                        x - 1
                    };
                    let y0 = if y < idx {
                        y
                    } else {
                        y - 1
                    };
                    if x != idx && y != idx {
                        assert(t[x] == s1[x0] && t[y] == s1[y0]);
                    } else if y == idx {
                        // x < idx: s1[x] == s0[x] orders before k
                        assert(t[x] == s1[x0] && s1[x0] == s0[x0]);
                    } else {
                        // x == idx < y: s1[y0] == s0[y0 + 1] orders after k
                        assert(t[y] == s1[y0] && s1[y0] == s0[y0 + 1]);
                    }
                }
            }
            self.entries.insert(idx, (k, v));
        } else {
            // fresh key: it orders after everything before `idx` and, by
            // totality, before the entry at `idx` and all later ones
            proof {
                assert(!has_key(s0, k@)) by {
                    if has_key(s0, k@) {
                        let j = choose|j: int| 0 <= j < s0.len() && (#[trigger] s0[j]).0@ == k@;
                        if j < idx {
                            lemma_chars_lt_irrefl(k@);
                        } else if idx < n {
                            lemma_chars_lt_connex(s0[idx as int].0@, k@);
                            if chars_lt(k@, s0[idx as int].0@) && idx < j {
                                lemma_chars_lt_trans(k@, s0[idx as int].0@, s0[j].0@);
                                lemma_chars_lt_irrefl(k@);
                            }
                            if chars_lt(k@, s0[idx as int].0@) && idx == j {
                                lemma_chars_lt_irrefl(k@);
                            }
                        }
                    }
                }
                lemma_contents_insert(s0, idx as int, k, v);
                if idx < n {
                    lemma_chars_lt_connex(s0[idx as int].0@, k@);
                }
                assert forall|x: int, y: int|
                    0 <= x < y < s0.insert(idx as int, (k, v)).len() implies chars_lt(
                    (#[trigger] s0.insert(idx as int, (k, v))[x]).0@,
                    (#[trigger] s0.insert(idx as int, (k, v))[y]).0@,
                ) by {
                    let t = s0.insert(idx as int, (k, v));
                    let x0 = if x < idx {
                        x
                    } else {
                        x - 1
                    };
                    let y0 = if y < idx {
                        y
                    } else {
                        y - 1
                    };
                    if x != idx && y != idx {
                        assert(t[x] == s0[x0] && t[y] == s0[y0]);
                    } else if y == idx {
                        assert(t[x] == s0[x0]);
                    } else {
                        assert(t[y] == s0[y0]);
                        if y0 > idx {
                            lemma_chars_lt_trans(k@, s0[idx as int].0@, s0[y0].0@);
                        }
                    }
                }
            }
            self.entries.insert(idx, (k, v));
        }
        proof {
            assert(self.contents() =~= old(self).contents().insert(k@, v@));
        }
    }

    /// Deletes the record stored under `k`, if any.
    pub fn delete(&mut self, k: &String)
        requires
            old(self).wf(),
        ensures
            final(self).wf(),
            final(self).contents() =~= old(self).contents().remove(k@),
    {
        proof {
            lemma_sorted_distinct(self.entries@);
        }
        let ghost s0 = self.entries@;
        match self.find(k) {
            Some(i) => {
                proof {
                    lemma_contents_remove(s0, i as int);
                    lemma_sorted_remove(s0, i as int);
                }
                self.entries.remove(i);
            },
            None => {
                proof {
                    assert(!self.contents().contains_key(k@));
                }
            },
        }
    }

    /// All records of the namespace: each stored pair exactly once, in
    /// strictly ascending key order.
    pub fn scan(&self) -> (r: Vec<(String, Vec<u8>)>)
        requires
            self.wf(),
        ensures
            forall|i: int|
                0 <= i < r@.len() ==> self.contents().contains_key((#[trigger] r@[i]).0@)
                    && self.contents()[r@[i].0@] == r@[i].1@,
            forall|k: Seq<char>|
                self.contents().contains_key(k) ==> exists|i: int|
                    0 <= i < r@.len() && (#[trigger] r@[i]).0@ == k,
            forall|i: int, j: int|
                0 <= i < j < r@.len() ==> chars_lt((#[trigger] r@[i]).0@, (#[trigger] r@[j]).0@),
            forall|i: int, j: int|
                0 <= i < j < r@.len() ==> (#[trigger] r@[i]).0@ != (#[trigger] r@[j]).0@,
    {
        let n = self.entries.len();
        let mut out: Vec<(String, Vec<u8>)> = Vec::new();
        let mut i: usize = 0;
        while i < n
            invariant
                i <= n,
                n == self.entries@.len(),
                self.wf(),
                out@.len() == i,
                forall|j: int|
                    0 <= j < i ==> (#[trigger] out@[j]).0@ == self.entries@[j].0@ && out@[j].1@
                        == self.entries@[j].1@,
            decreases n - i,
        {
            let e = vstd::std_specs::vec::vec_index(&self.entries, i);
            let key = e.0.clone();
            let val = slice_to_vec(e.1.as_slice());
            out.push((key, val));
            i += 1;
        }
        proof {
            lemma_sorted_distinct(self.entries@);
            assert forall|i2: int| 0 <= i2 < out@.len() implies self.contents().contains_key(
                (#[trigger] out@[i2]).0@,
            ) && self.contents()[out@[i2].0@] == out@[i2].1@ by {
                lemma_contents_index(self.entries@, i2);
            }
            assert forall|k: Seq<char>| self.contents().contains_key(k) implies exists|i2: int|
                0 <= i2 < out@.len() && (#[trigger] out@[i2]).0@ == k by {
                let j = choose|j: int|
                    0 <= j < self.entries@.len() && (#[trigger] self.entries@[j]).0@ == k;
                assert(out@[j].0@ == k);
            }
        }
        out
    }
}

} // verus!
