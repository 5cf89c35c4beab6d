//! A request header set: an insertion-ordered mapping from header names to
//! ordered lists of values, with unique names.  It stands in for the hash
//! map the transport layer would use, so that canonicalization and signing
//! can be specified deterministically.

use crate::strutil::str_eq;
use vstd::prelude::*;

verus! {

/// The spec-level shape of a header set: a sequence of
/// (name, values) pairs.
pub type HeaderEntries = Seq<(Seq<char>, Seq<Seq<char>>)>;

/// Value list of the first entry named `k`, if any.
pub open spec fn lookup(entries: HeaderEntries, k: Seq<char>) -> Option<Seq<Seq<char>>>
    decreases entries.len(),
{
    if entries.len() == 0 {
        None
    } else if entries[0].0 == k {
        Some(entries[0].1)
    } else {
        lookup(entries.drop_first(), k)
    }
}

/// Whether some entry is named `k`.
pub open spec fn has_key(entries: HeaderEntries, k: Seq<char>) -> bool {
    lookup(entries, k) is Some
}

/// `entries` with the entry named `k` replaced by (`k`, `v`), or with
/// (`k`, `v`) appended when no entry bears that name.
pub open spec fn spec_insert(entries: HeaderEntries, k: Seq<char>, v: Seq<Seq<char>>) -> (
    HeaderEntries)
    decreases entries.len(),
{
    if entries.len() == 0 {
        seq![(k, v)]
    } else if entries[0].0 == k {
        seq![(k, v)] + entries.drop_first()
    } else {
        seq![entries[0]] + spec_insert(entries.drop_first(), k, v)
    }
}

/// `entries` without the first entry named `k`.
pub open spec fn spec_remove(entries: HeaderEntries, k: Seq<char>) -> HeaderEntries
    decreases entries.len(),
{
    if entries.len() == 0 {
        entries
    } else if entries[0].0 == k {
        entries.drop_first()
    } else {
        seq![entries[0]] + spec_remove(entries.drop_first(), k)
    }
}

/// All entry names are distinct.
pub open spec fn unique_keys(entries: HeaderEntries) -> bool {
    forall|i: int, j: int|
        0 <= i < j < entries.len() ==> entries[i].0 != entries[j].0
}

/// Some entry bears the name `x`.
pub open spec fn key_in(entries: HeaderEntries, x: Seq<char>) -> bool {
    exists|j: int| 0 <= j < entries.len() && entries[j].0 == x
}

/// Every name of an insertion result is the inserted name or one of the
/// old ones.
pub proof fn lemma_insert_keys(entries: HeaderEntries, k: Seq<char>, v: Seq<Seq<char>>)
    ensures
        forall|i: int|
            #![trigger spec_insert(entries, k, v)[i]]
            0 <= i < spec_insert(entries, k, v).len() ==> spec_insert(entries, k, v)[i].0 == k
                || key_in(entries, spec_insert(entries, k, v)[i].0),
    decreases entries.len(),
{
    let r = spec_insert(entries, k, v);
    if entries.len() == 0 {
    } else if entries[0].0 == k {
        assert forall|i: int| 0 <= i < r.len() implies r[i].0 == k || key_in(entries, r[i].0) by {
            if i > 0 {
                assert(r[i] == entries[i]);
            }
        }
    } else {
        lemma_insert_keys(entries.drop_first(), k, v);
        let rr = spec_insert(entries.drop_first(), k, v);
        assert forall|i: int| 0 <= i < r.len() implies r[i].0 == k || key_in(entries, r[i].0) by {
            if i == 0 {
                assert(entries[0].0 == r[0].0);
            } else {
                assert(r[i] == rr[i - 1]);
                if rr[i - 1].0 != k {
                    let j = choose|j: int|
                        0 <= j < entries.drop_first().len() && entries.drop_first()[j].0 == rr[i
                            - 1].0;
                    assert(entries[j + 1].0 == rr[i - 1].0);
                }
            }
        }
    }
}

/// Insertion keeps the names pairwise distinct.
pub proof fn lemma_insert_unique(entries: HeaderEntries, k: Seq<char>, v: Seq<Seq<char>>)
    requires
        unique_keys(entries),
    ensures
        unique_keys(spec_insert(entries, k, v)),
    decreases entries.len(),
{
    let r = spec_insert(entries, k, v);
    if entries.len() == 0 {
    } else if entries[0].0 == k {
        assert forall|i: int, j: int| 0 <= i < j < r.len() implies r[i].0 != r[j].0 by {
            if i == 0 {
                assert(r[j] == entries[j]);
            } else {
                assert(r[i] == entries[i]);
                assert(r[j] == entries[j]);
            }
        }
    } else {
        lemma_insert_unique(entries.drop_first(), k, v);
        lemma_insert_keys(entries.drop_first(), k, v);
        let rr = spec_insert(entries.drop_first(), k, v);
        assert forall|i: int, j: int| 0 <= i < j < r.len() implies r[i].0 != r[j].0 by {
            if i == 0 {
                assert(r[j] == rr[j - 1]);
                if rr[j - 1].0 != k {
                    let j0 = choose|j0: int|
                        0 <= j0 < entries.drop_first().len() && entries.drop_first()[j0].0 == rr[j
                            - 1].0;
                    assert(entries[j0 + 1].0 == rr[j - 1].0);
                }
            } else {
                assert(r[i] == rr[i - 1]);
                assert(r[j] == rr[j - 1]);
            }
        }
    }
}

/// Insertion makes the name present and touches no other name's
/// presence.
pub proof fn lemma_has_key_insert(entries: HeaderEntries, k: Seq<char>, v: Seq<Seq<char>>, k2: Seq<
    char,
>)
    ensures
        has_key(spec_insert(entries, k, v), k2) == (k2 == k || has_key(entries, k2)),
    decreases entries.len(),
{
    let r = spec_insert(entries, k, v);
    if entries.len() == 0 {
        assert(r[0] == (k, v));
        assert(r.drop_first() =~= entries);
    } else if entries[0].0 == k {
        assert(r[0] == (k, v));
        assert(r.drop_first() =~= entries.drop_first());
    } else {
        lemma_has_key_insert(entries.drop_first(), k, v, k2);
        assert(r[0] == entries[0]);
        assert(r.drop_first() =~= spec_insert(entries.drop_first(), k, v));
    }
}

/// Appending an entry makes its name present and touches no other
/// name's presence.
pub proof fn lemma_has_key_push(entries: HeaderEntries, k: Seq<char>, v: Seq<Seq<char>>, k2: Seq<
    char,
>)
    ensures
        has_key(entries.push((k, v)), k2) == (k2 == k || has_key(entries, k2)),
    decreases entries.len(),
{
    let r = entries.push((k, v));
    if entries.len() == 0 {
        assert(r[0] == (k, v));
        assert(r.drop_first() =~= entries);
    } else {
        lemma_has_key_push(entries.drop_first(), k, v, k2);
        assert(r.drop_first() =~= entries.drop_first().push((k, v)));
        assert(r[0] == entries[0]);
    }
}

/// Appending an entry with a fresh name keeps the names pairwise
/// distinct.
pub proof fn lemma_push_unique(entries: HeaderEntries, k: Seq<char>, v: Seq<Seq<char>>)
    requires
        unique_keys(entries),
        !has_key(entries, k),
    ensures
        unique_keys(entries.push((k, v))),
{
    lemma_not_has_key(entries, k);
    let r = entries.push((k, v));
    assert forall|i: int, j: int| 0 <= i < j < r.len() implies r[i].0 != r[j].0 by {
        if j < entries.len() {
        } else {
            assert(r[j] == (k, v));
            assert(r[i] == entries[i]);
        }
    }
}

/// After an insertion, looking the name up finds the inserted values.
pub proof fn lemma_lookup_insert_self(entries: HeaderEntries, k: Seq<char>, v: Seq<Seq<char>>)
    ensures
        lookup(spec_insert(entries, k, v), k) == Some(v),
    decreases entries.len(),
{
    let r = spec_insert(entries, k, v);
    if entries.len() == 0 {
        assert(r[0] == (k, v));
    } else if entries[0].0 == k {
        assert(r[0] == (k, v));
    } else {
        lemma_lookup_insert_self(entries.drop_first(), k, v);
        assert(r[0] == entries[0]);
        assert(r.drop_first() =~= spec_insert(entries.drop_first(), k, v));
    }
}

/// Re-inserting the value an entry already has changes nothing.
pub proof fn lemma_insert_same(entries: HeaderEntries, k: Seq<char>, v: Seq<Seq<char>>)
    requires
        lookup(entries, k) == Some(v),
    ensures
        spec_insert(entries, k, v) == entries,
    decreases entries.len(),
{
    if entries.len() > 0 {
        if entries[0].0 == k {
            assert(entries[0] == (k, v));
            assert(seq![entries[0]] + entries.drop_first() =~= entries);
        } else {
            lemma_insert_same(entries.drop_first(), k, v);
            assert(seq![entries[0]] + entries.drop_first() =~= entries);
        }
    }
}

/// An insertion-ordered header map with unique names.
pub struct HeaderSet {
    entries: Vec<(String, Vec<String>)>,
}

impl View for HeaderSet {
    type V = HeaderEntries;

    closed spec fn view(&self) -> HeaderEntries {
        self.entries@.map_values(|e: (String, Vec<String>)| (e.0@, e.1.deep_view()))
    }
}

/// A name that `lookup` misses names no entry.
pub(crate) proof fn lemma_not_has_key(entries: HeaderEntries, k: Seq<char>)
    requires
        !has_key(entries, k),
    ensures
        forall|j: int| 0 <= j < entries.len() ==> entries[j].0 != k,
    decreases entries.len(),
{
    if entries.len() > 0 {
        lemma_not_has_key(entries.drop_first(), k);
        assert forall|j: int| 0 <= j < entries.len() implies entries[j].0 != k by {
            if j > 0 {
                assert(entries.drop_first()[j - 1] == entries[j]);
            }
        }
    }
}

/// Inserting an absent name appends the entry.
pub(crate) proof fn lemma_insert_new(entries: HeaderEntries, k: Seq<char>, v: Seq<Seq<char>>)
    requires
        !has_key(entries, k),
    ensures
        spec_insert(entries, k, v) == entries.push((k, v)),
{
    lemma_not_has_key(entries, k);
    lemma_insert_absent(entries, k, v);
}

proof fn lemma_lookup_at(entries: HeaderEntries, k: Seq<char>, i: int)
    requires
        0 <= i < entries.len(),
        entries[i].0 == k,
        forall|j: int| 0 <= j < i ==> entries[j].0 != k,
    ensures
        lookup(entries, k) == Some(entries[i].1),
    decreases i,
{
    if i > 0 {
        lemma_lookup_at(entries.drop_first(), k, i - 1);
    }
}

pub(crate) proof fn lemma_lookup_none(entries: HeaderEntries, k: Seq<char>)
    requires
        forall|j: int| 0 <= j < entries.len() ==> entries[j].0 != k,
    ensures
        lookup(entries, k) is None,
    decreases entries.len(),
{
    if entries.len() > 0 {
        lemma_lookup_none(entries.drop_first(), k);
    }
}

proof fn lemma_insert_at(entries: HeaderEntries, k: Seq<char>, v: Seq<Seq<char>>, i: int)
    requires
        0 <= i < entries.len(),
        entries[i].0 == k,
        forall|j: int| 0 <= j < i ==> entries[j].0 != k,
    ensures
        spec_insert(entries, k, v) == entries.update(i, (k, v)),
    decreases i,
{
    if i == 0 {
        assert(seq![(k, v)] + entries.drop_first() =~= entries.update(0, (k, v)));
    } else {
        lemma_insert_at(entries.drop_first(), k, v, i - 1);
        assert(seq![entries[0]] + entries.drop_first().update(i - 1, (k, v)) =~= entries.update(
            i,
            (k, v),
        ));
    }
}

pub(crate) proof fn lemma_insert_absent(entries: HeaderEntries, k: Seq<char>, v: Seq<Seq<char>>)
    requires
        forall|j: int| 0 <= j < entries.len() ==> entries[j].0 != k,
    ensures
        spec_insert(entries, k, v) == entries.push((k, v)),
    decreases entries.len(),
{
    if entries.len() == 0 {
        assert(seq![(k, v)] =~= entries.push((k, v)));
    } else {
        lemma_insert_absent(entries.drop_first(), k, v);
        assert(seq![entries[0]] + entries.drop_first().push((k, v)) =~= entries.push((k, v)));
    }
}

proof fn lemma_remove_at(entries: HeaderEntries, k: Seq<char>, i: int)
    requires
        0 <= i < entries.len(),
        entries[i].0 == k,
        forall|j: int| 0 <= j < i ==> entries[j].0 != k,
    ensures
        spec_remove(entries, k) == entries.remove(i),
    decreases i,
{
    if i == 0 {
        assert(entries.drop_first() =~= entries.remove(0));
    } else {
        lemma_remove_at(entries.drop_first(), k, i - 1);
        assert(seq![entries[0]] + entries.drop_first().remove(i - 1) =~= entries.remove(i));
    }
}

proof fn lemma_remove_absent(entries: HeaderEntries, k: Seq<char>)
    requires
        forall|j: int| 0 <= j < entries.len() ==> entries[j].0 != k,
    ensures
        spec_remove(entries, k) == entries,
    decreases entries.len(),
{
    if entries.len() > 0 {
        lemma_remove_absent(entries.drop_first(), k);
        assert(seq![entries[0]] + entries.drop_first() =~= entries);
    }
}

impl HeaderSet {
    /// The names, in order, are pairwise distinct.
    pub open spec fn wf(self) -> bool {
        unique_keys(self@)
    }

    /// An empty header set.
    pub fn new() -> (r: HeaderSet)
        ensures
            r@ == Seq::<(Seq<char>, Seq<Seq<char>>)>::empty(),
            r.wf(),
    {
        let r = HeaderSet { entries: Vec::new() };
        assert(r@ =~= Seq::<(Seq<char>, Seq<Seq<char>>)>::empty());
        r
    }

    /// Number of entries.
    pub fn len(&self) -> (r: usize)
        ensures
            r == self@.len(),
    {
        self.entries.len()
    }

    /// Name of the entry at `i`.
    pub fn key_at(&self, i: usize) -> (r: &String)
        requires
            i < self@.len(),
        ensures
            r@ == self@[i as int].0,
    {
        &self.entries[i].0
    }

    /// Values of the entry at `i`.
    pub fn values_at(&self, i: usize) -> (r: &Vec<String>)
        requires
            i < self@.len(),
        ensures
            r.deep_view() == self@[i as int].1,
    {
        &self.entries[i].1
    }

    /// Index of the entry named `name`, if any.
    fn find(&self, name: &str) -> (r: Option<usize>)
        ensures
            match r {
                Some(i) => {
                    &&& i < self@.len()
                    &&& self@[i as int].0 == name@
                    &&& forall|j: int| 0 <= j < i ==> self@[j].0 != name@
                },
                None => forall|j: int| 0 <= j < self@.len() ==> self@[j].0 != name@,
            },
    {
        let n = self.entries.len();
        let mut i: usize = 0;
        while i < n
            invariant
                n == self@.len(),
                i <= n,
                forall|j: int| 0 <= j < i ==> self@[j].0 != name@,
            decreases n - i,
        {
            if str_eq(self.entries[i].0.as_str(), name) {
                return Some(i);
            }
            i = i + 1;
        }
        None
    }

    /// Whether an entry named `name` exists.
    pub fn contains_key(&self, name: &str) -> (r: bool)
        ensures
            r == has_key(self@, name@),
    {
        match self.find(name) {
            Some(i) => {
                proof {
                    lemma_lookup_at(self@, name@, i as int);
                }
                true
            },
            None => {
                proof {
                    lemma_lookup_none(self@, name@);
                }
                false
            },
        }
    }

    /// The values of the entry named `name`, if any.
    pub fn get(&self, name: &str) -> (r: Option<&Vec<String>>)
        ensures
            r is Some <==> has_key(self@, name@),
            r is Some ==> Some(r.unwrap().deep_view()) == lookup(self@, name@),
    {
        match self.find(name) {
            Some(i) => {
                proof {
                    lemma_lookup_at(self@, name@, i as int);
                }
                Some(&self.entries[i].1)
            },
            None => {
                proof {
                    lemma_lookup_none(self@, name@);
                }
                None
            },
        }
    }

    /// Sets `name` to `values`, replacing an existing entry of that name
    /// in place and appending otherwise.
    pub fn insert(&mut self, name: String, values: Vec<String>)
        ensures
            final(self)@ == spec_insert(old(self)@, name@, values.deep_view()),
            old(self).wf() ==> final(self).wf(),
    {
        let ghost entries = self@;
        match self.find(name.as_str()) {
            Some(i) => {
                proof {
                    lemma_insert_at(entries, name@, values.deep_view(), i as int);
                }
                let ghost k = name@;
                let ghost v = values.deep_view();
                self.entries.set(i, (name, values));
                assert(self@ =~= entries.update(i as int, (k, v)));
            },
            None => {
                proof {
                    lemma_insert_absent(entries, name@, values.deep_view());
                }
                let ghost k = name@;
                let ghost v = values.deep_view();
                self.entries.push((name, values));
                assert(self@ =~= entries.push((k, v)));
            },
        }
    }

    /// Removes the entry named `name`, if any.
    pub fn remove(&mut self, name: &str)
        ensures
            final(self)@ == spec_remove(old(self)@, name@),
            old(self).wf() ==> final(self).wf(),
    {
        let ghost entries = self@;
        match self.find(name) {
            Some(i) => {
                proof {
                    lemma_remove_at(entries, name@, i as int);
                }
                self.entries.remove(i);
                assert(self@ =~= entries.remove(i as int));
            },
            None => {
                proof {
                    lemma_remove_absent(entries, name@);
                }
            },
        }
    }
}

} // verus!
