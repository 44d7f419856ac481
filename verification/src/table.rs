//! Small association tables backed by vectors.
//!
//! `Table1` maps one string key to a value, `Table2` maps a pair of string
//! keys (channel and name) to a value.  Lookup is by first match; a
//! well-formed table has pairwise distinct keys, which every operation
//! preserves, so the tables behave as finite maps.

use vstd::prelude::*;
use crate::text::str_eq;

verus! {

/// One entry of a single-key table.
pub struct Entry1<V> {
    pub key: String,
    pub val: V,
}

/// A single-key association table.
pub struct Table1<V> {
    pub entries: Vec<Entry1<V>>,
}

/// First value for `key` at or after position `i`, if any.
pub open spec fn table1_get_from<V>(e: Seq<Entry1<V>>, i: int, key: Seq<char>) -> Option<V>
    decreases e.len() - i,
{
    if i < 0 || i >= e.len() {
        None
    } else if e[i].key@ == key {
        Some(e[i].val)
    } else {
        table1_get_from(e, i + 1, key)
    }
}

proof fn lemma_table1_update<V>(e1: Seq<Entry1<V>>, e2: Seq<Entry1<V>>, j: int, i: int, key: Seq<char>)
    requires
        e1.len() == e2.len(),
        0 <= j < e1.len(),
        forall|k: int| 0 <= k < e1.len() && k != j ==> e1[k] == e2[k],
        e2[j].key@ == e1[j].key@,
        key != e1[j].key@,
    ensures
        table1_get_from(e1, i, key) == table1_get_from(e2, i, key),
    decreases e1.len() - i,
{
    if 0 <= i && i < e1.len() {
        lemma_table1_update(e1, e2, j, i + 1, key);
    }
}

proof fn lemma_table1_push<V>(e: Seq<Entry1<V>>, x: Entry1<V>, i: int, key: Seq<char>)
    requires
        0 <= i,
        key != x.key@,
    ensures
        table1_get_from(e.push(x), i, key) == table1_get_from(e, i, key),
    decreases e.len() + 1 - i,
{
    if i < e.len() + 1 {
        lemma_table1_push(e, x, i + 1, key);
    }
}

proof fn lemma_table1_remove<V>(e: Seq<Entry1<V>>, j: int, i: int, key: Seq<char>)
    requires
        0 <= j < e.len(),
        0 <= i <= e.len(),
        e[j].key@ != key,
    ensures
        table1_get_from(e.remove(j), if i <= j { i } else { i - 1 }, key)
            == table1_get_from(e, i, key),
    decreases e.len() - i,
{
    if i < e.len() {
        lemma_table1_remove(e, j, i + 1, key);
    }
}

impl<V> Table1<V> {
    /// The value stored for `key`, if any.
    pub open spec fn spec_get(self, key: Seq<char>) -> Option<V> {
        table1_get_from(self.entries@, 0, key)
    }

    /// Keys are pairwise distinct.
    pub open spec fn wf(self) -> bool {
        forall|i: int, j: int|
            0 <= i < j < self.entries@.len() ==> (#[trigger] self.entries@[i].key@)
                != (#[trigger] self.entries@[j].key@)
    }

    /// An empty table.
    pub fn new() -> (r: Self)
        ensures
            r.wf(),
            forall|key: Seq<char>| r.spec_get(key) is None,
    {
        Table1 { entries: Vec::new() }
    }

    fn index_of(&self, key: &str) -> (r: Option<usize>)
        ensures
            match r {
                Some(i) => i < self.entries@.len() && self.entries@[i as int].key@ == key@
                    && self.spec_get(key@) == Some(self.entries@[i as int].val),
                None => self.spec_get(key@) is None,
            },
    {
        let n = self.entries.len();
        let mut i: usize = 0;
        while i < n
            invariant
                n == self.entries@.len(),
                i <= n,
                table1_get_from(self.entries@, 0, key@) == table1_get_from(
                    self.entries@,
                    i as int,
                    key@,
                ),
            decreases n - i,
        {
            if str_eq(self.entries[i].key.as_str(), key) {
                return Some(i);
            }
            i = i + 1;
        }
        None
    }

    /// Look the key up.
    pub fn get(&self, key: &str) -> (r: Option<&V>)
        ensures
            match r {
                Some(v) => self.spec_get(key@) == Some(*v),
                None => self.spec_get(key@) is None,
            },
    {
        match self.index_of(key) {
            Some(i) => Some(&self.entries[i].val),
            None => None,
        }
    }

    /// Whether the key is present.
    pub fn contains(&self, key: &str) -> (r: bool)
        ensures
            r == (self.spec_get(key@) is Some),
    {
        match self.index_of(key) {
            Some(_) => true,
            None => false,
        }
    }

    /// Insert or replace the value for `key`.
    pub fn set(&mut self, key: String, val: V)
        requires
            old(self).wf(),
        ensures
            final(self).wf(),
            final(self).spec_get(key@) == Some(val),
            forall|k2: Seq<char>| k2 != key@ ==> final(self).spec_get(k2) == old(self).spec_get(k2),
    {
        let ghost kv = key@;
        let found = self.index_of(key.as_str());
        match found {
            Some(i) => {
                let ghost e1 = self.entries@;
                self.entries.remove(i);
                self.entries.insert(i, Entry1 { key, val });
                proof {
                    let e2 = self.entries@;
                    assert(e2.len() == e1.len());
                    assert(forall|k: int| 0 <= k < e1.len() && k != i ==> e1[k] == e2[k]);
                    assert(e2[i as int].key@ == kv && e2[i as int].val == val);
                    assert forall|k2: Seq<char>| k2 != kv implies table1_get_from(e2, 0, k2)
                        == table1_get_from(e1, 0, k2) by {
                        lemma_table1_update(e1, e2, i as int, 0, k2);
                    }
                    assert(forall|j: int| 0 <= j < i ==> (#[trigger] e2[j].key@) != kv);
                    lemma_table1_first_match(e2, i as int, 0, kv);
                }
            }
            None => {
                let ghost e1 = self.entries@;
                self.entries.push(Entry1 { key, val });
                proof {
                    let e2 = self.entries@;
                    assert(e2 =~= e1.push(e2[e1.len() as int]));
                    assert forall|k2: Seq<char>| k2 != kv implies table1_get_from(e2, 0, k2)
                        == table1_get_from(e1, 0, k2) by {
                        lemma_table1_push(e1, e2[e1.len() as int], 0, k2);
                    }
                    assert forall|j: int| 0 <= j < e1.len() implies (#[trigger] e2[j].key@) != kv by {
                        if e1[j].key@ == kv {
                            lemma_table1_found(e1, j, 0, kv);
                        }
                    }
                    lemma_table1_first_match(e2, e1.len() as int, 0, kv);
                    assert forall|i2: int, j2: int|
                        0 <= i2 < j2 < e2.len() implies (#[trigger] e2[i2].key@)
                        != (#[trigger] e2[j2].key@) by {
                        if j2 == e1.len() as int {
                            assert(e2[i2].key@ != kv);
                        }
                    }
                }
            }
        }
    }

    /// Remove the value for `key`; report whether one was there.
    pub fn remove(&mut self, key: &str) -> (r: bool)
        requires
            old(self).wf(),
        ensures
            final(self).wf(),
            r == (old(self).spec_get(key@) is Some),
            final(self).spec_get(key@) is None,
            forall|k2: Seq<char>| k2 != key@ ==> final(self).spec_get(k2) == old(self).spec_get(k2),
    {
        let found = self.index_of(key);
        match found {
            Some(i) => {
                let ghost e1 = self.entries@;
                self.entries.remove(i);
                proof {
                    let e2 = self.entries@;
                    assert forall|k2: Seq<char>| k2 != key@ implies table1_get_from(e2, 0, k2)
                        == table1_get_from(e1, 0, k2) by {
                        lemma_table1_remove(e1, i as int, 0, k2);
                    }
                    assert(forall|j: int|
                        0 <= j < e2.len() ==> (#[trigger] e2[j]) == if j < i as int {
                            e1[j]
                        } else {
                            e1[j + 1]
                        });
                    assert forall|j: int| 0 <= j < e2.len() implies (#[trigger] e2[j].key@)
                        != key@ by {
                        if j < i as int {
                            assert(e1[j].key@ != e1[i as int].key@);
                        } else {
                            assert(e1[j + 1].key@ != e1[i as int].key@);
                        }
                    }
                    lemma_table1_absent(e2, 0, key@);
                }
                true
            }
            None => false,
        }
    }
}

/// If `j` is the first entry at or after `i` that holds `key`, the lookup
/// from `i` returns its value.
proof fn lemma_table1_first_match<V>(e: Seq<Entry1<V>>, j: int, i: int, key: Seq<char>)
    requires
        0 <= i <= j < e.len(),
        e[j].key@ == key,
        forall|k: int| i <= k < j ==> (#[trigger] e[k].key@) != key,
    ensures
        table1_get_from(e, i, key) == Some(e[j].val),
    decreases j - i,
{
    if i < j {
        lemma_table1_first_match(e, j, i + 1, key);
    }
}

/// If some entry at or after `i` holds `key`, the lookup from `i` succeeds.
proof fn lemma_table1_found<V>(e: Seq<Entry1<V>>, j: int, i: int, key: Seq<char>)
    requires
        0 <= i <= j < e.len(),
        e[j].key@ == key,
    ensures
        table1_get_from(e, i, key) is Some,
    decreases j - i,
{
    if i < j {
        lemma_table1_found(e, j, i + 1, key);
    }
}

/// If no entry at or after `i` holds `key`, the lookup from `i` fails.
proof fn lemma_table1_absent<V>(e: Seq<Entry1<V>>, i: int, key: Seq<char>)
    requires
        0 <= i,
        forall|j: int| i <= j < e.len() ==> (#[trigger] e[j].key@) != key,
    ensures
        table1_get_from(e, i, key) is None,
    decreases e.len() - i,
{
    if i < e.len() {
        lemma_table1_absent(e, i + 1, key);
    }
}

/// One entry of a channel-and-name keyed table.
pub struct Entry2<V> {
    pub channel: String,
    pub name: String,
    pub val: V,
}

/// An association table keyed by a channel and a name within it.
pub struct Table2<V> {
    pub entries: Vec<Entry2<V>>,
}

/// Whether entry `x` carries the key `(c, n)`.
pub open spec fn entry2_matches<V>(x: Entry2<V>, c: Seq<char>, n: Seq<char>) -> bool {
    x.channel@ == c && x.name@ == n
}

/// First value for `(c, n)` at or after position `i`, if any.
pub open spec fn table2_get_from<V>(e: Seq<Entry2<V>>, i: int, c: Seq<char>, n: Seq<char>) -> Option<
    V,
>
    decreases e.len() - i,
{
    if i < 0 || i >= e.len() {
        None
    } else if entry2_matches(e[i], c, n) {
        Some(e[i].val)
    } else {
        table2_get_from(e, i + 1, c, n)
    }
}

proof fn lemma_table2_update<V>(
    e1: Seq<Entry2<V>>,
    e2: Seq<Entry2<V>>,
    j: int,
    i: int,
    c: Seq<char>,
    n: Seq<char>,
)
    requires
        e1.len() == e2.len(),
        0 <= j < e1.len(),
        forall|k: int| 0 <= k < e1.len() && k != j ==> e1[k] == e2[k],
        e2[j].channel@ == e1[j].channel@,
        e2[j].name@ == e1[j].name@,
        !entry2_matches(e1[j], c, n),
    ensures
        table2_get_from(e1, i, c, n) == table2_get_from(e2, i, c, n),
    decreases e1.len() - i,
{
    if 0 <= i && i < e1.len() {
        lemma_table2_update(e1, e2, j, i + 1, c, n);
    }
}

proof fn lemma_table2_push<V>(e: Seq<Entry2<V>>, x: Entry2<V>, i: int, c: Seq<char>, n: Seq<char>)
    requires
        0 <= i,
        !entry2_matches(x, c, n),
    ensures
        table2_get_from(e.push(x), i, c, n) == table2_get_from(e, i, c, n),
    decreases e.len() + 1 - i,
{
    if i < e.len() + 1 {
        lemma_table2_push(e, x, i + 1, c, n);
    }
}

proof fn lemma_table2_remove<V>(e: Seq<Entry2<V>>, j: int, i: int, c: Seq<char>, n: Seq<char>)
    requires
        0 <= j < e.len(),
        0 <= i <= e.len(),
        !entry2_matches(e[j], c, n),
    ensures
        table2_get_from(e.remove(j), if i <= j { i } else { i - 1 }, c, n)
            == table2_get_from(e, i, c, n),
    decreases e.len() - i,
{
    if i < e.len() {
        lemma_table2_remove(e, j, i + 1, c, n);
    }
}

/// If `j` is the first entry at or after `i` with key `(c, n)`, the lookup
/// from `i` returns its value.
proof fn lemma_table2_first_match<V>(e: Seq<Entry2<V>>, j: int, i: int, c: Seq<char>, n: Seq<char>)
    requires
        0 <= i <= j < e.len(),
        entry2_matches(e[j], c, n),
        forall|k: int| i <= k < j ==> !entry2_matches(#[trigger] e[k], c, n),
    ensures
        table2_get_from(e, i, c, n) == Some(e[j].val),
    decreases j - i,
{
    if i < j {
        lemma_table2_first_match(e, j, i + 1, c, n);
    }
}

/// If some entry at or after `i` holds `(c, n)`, the lookup from `i` succeeds.
proof fn lemma_table2_found<V>(e: Seq<Entry2<V>>, j: int, i: int, c: Seq<char>, n: Seq<char>)
    requires
        0 <= i <= j < e.len(),
        entry2_matches(e[j], c, n),
    ensures
        table2_get_from(e, i, c, n) is Some,
    decreases j - i,
{
    if i < j {
        lemma_table2_found(e, j, i + 1, c, n);
    }
}

/// If no entry at or after `i` holds `(c, n)`, the lookup from `i` fails.
proof fn lemma_table2_absent<V>(e: Seq<Entry2<V>>, i: int, c: Seq<char>, n: Seq<char>)
    requires
        0 <= i,
        forall|j: int| i <= j < e.len() ==> !entry2_matches(#[trigger] e[j], c, n),
    ensures
        table2_get_from(e, i, c, n) is None,
    decreases e.len() - i,
{
    if i < e.len() {
        lemma_table2_absent(e, i + 1, c, n);
    }
}

/// The names of the entries under channel `c` at or after position `i`, in
/// table order.
pub open spec fn table2_names_from<V>(e: Seq<Entry2<V>>, i: int, c: Seq<char>) -> Seq<Seq<char>>
    decreases e.len() - i,
{
    if i < 0 || i >= e.len() {
        seq![]
    } else if e[i].channel@ == c {
        seq![e[i].name@] + table2_names_from(e, i + 1, c)
    } else {
        table2_names_from(e, i + 1, c)
    }
}

impl<V> Table2<V> {
    /// The value stored for `(c, n)`, if any.
    pub open spec fn spec_get(self, c: Seq<char>, n: Seq<char>) -> Option<V> {
        table2_get_from(self.entries@, 0, c, n)
    }

    /// The names under channel `c`, in table order.
    pub open spec fn spec_names(self, c: Seq<char>) -> Seq<Seq<char>> {
        table2_names_from(self.entries@, 0, c)
    }

    /// List the names under channel `c`, in table order.
    pub fn names_for(&self, c: &str) -> (r: Vec<String>)
        ensures
            r.deep_view() == self.spec_names(c@),
    {
        let len = self.entries.len();
        let mut names: Vec<String> = Vec::new();
        let mut i: usize = 0;
        while i < len
            invariant
                len == self.entries@.len(),
                i <= len,
                names.deep_view() + table2_names_from(self.entries@, i as int, c@)
                    =~= self.spec_names(c@),
            decreases len - i,
        {
            let ghost m = names.deep_view().len() as int;
            if str_eq(self.entries[i].channel.as_str(), c) {
                names.push(self.entries[i].name.clone());
                proof {
                    assert(names.deep_view() =~= names.deep_view().subrange(0, m) + seq![
                        self.entries@[i as int].name@,
                    ]);
                }
            }
            i = i + 1;
            proof {
                assert(names.deep_view() + table2_names_from(self.entries@, i as int, c@)
                    =~= self.spec_names(c@));
            }
        }
        proof {
            assert(names.deep_view() =~= self.spec_names(c@));
        }
        names
    }

    /// Key pairs are pairwise distinct.
    pub open spec fn wf(self) -> bool {
        forall|i: int, j: int|
            0 <= i < j < self.entries@.len() ==> !entry2_matches(
                #[trigger] self.entries@[i],
                self.entries@[j].channel@,
                (#[trigger] self.entries@[j]).name@,
            )
    }

    /// An empty table.
    pub fn new() -> (r: Self)
        ensures
            r.wf(),
            forall|c: Seq<char>, n: Seq<char>| r.spec_get(c, n) is None,
    {
        Table2 { entries: Vec::new() }
    }

    fn index_of(&self, c: &str, n: &str) -> (r: Option<usize>)
        ensures
            match r {
                Some(i) => i < self.entries@.len() && entry2_matches(self.entries@[i as int], c@, n@)
                    && self.spec_get(c@, n@) == Some(self.entries@[i as int].val),
                None => self.spec_get(c@, n@) is None,
            },
    {
        let len = self.entries.len();
        let mut i: usize = 0;
        while i < len
            invariant
                len == self.entries@.len(),
                i <= len,
                table2_get_from(self.entries@, 0, c@, n@) == table2_get_from(
                    self.entries@,
                    i as int,
                    c@,
                    n@,
                ),
            decreases len - i,
        {
            if str_eq(self.entries[i].channel.as_str(), c) && str_eq(self.entries[i].name.as_str(), n) {
                return Some(i);
            }
            i = i + 1;
        }
        None
    }

    /// Look the pair of keys up.
    pub fn get(&self, c: &str, n: &str) -> (r: Option<&V>)
        ensures
            match r {
                Some(v) => self.spec_get(c@, n@) == Some(*v),
                None => self.spec_get(c@, n@) is None,
            },
    {
        match self.index_of(c, n) {
            Some(i) => Some(&self.entries[i].val),
            None => None,
        }
    }

    /// Insert or replace the value for `(c, n)`.
    pub fn set(&mut self, c: String, n: String, val: V)
        requires
            old(self).wf(),
        ensures
            final(self).wf(),
            final(self).spec_get(c@, n@) == Some(val),
            forall|c2: Seq<char>, n2: Seq<char>|
                !(c2 == c@ && n2 == n@) ==> final(self).spec_get(c2, n2) == old(self).spec_get(
                    c2,
                    n2,
                ),
    {
        let ghost cv = c@;
        let ghost nv = n@;
        let found = self.index_of(c.as_str(), n.as_str());
        match found {
            Some(i) => {
                let ghost e1 = self.entries@;
                self.entries.remove(i);
                self.entries.insert(i, Entry2 { channel: c, name: n, val });
                proof {
                    let e2 = self.entries@;
                    assert(e2.len() == e1.len());
                    assert(forall|k: int| 0 <= k < e1.len() && k != i ==> e1[k] == e2[k]);
                    assert(entry2_matches(e2[i as int], cv, nv) && e2[i as int].val == val);
                    assert forall|c2: Seq<char>, n2: Seq<char>| !(c2 == cv && n2 == nv) implies
                        table2_get_from(e2, 0, c2, n2) == table2_get_from(e1, 0, c2, n2) by {
                        lemma_table2_update(e1, e2, i as int, 0, c2, n2);
                    }
                    assert(forall|j: int| 0 <= j < i ==> !entry2_matches(#[trigger] e2[j], cv, nv));
                    lemma_table2_first_match(e2, i as int, 0, cv, nv);
                }
            }
            None => {
                let ghost e1 = self.entries@;
                self.entries.push(Entry2 { channel: c, name: n, val });
                proof {
                    let e2 = self.entries@;
                    assert(e2 =~= e1.push(e2[e1.len() as int]));
                    assert forall|c2: Seq<char>, n2: Seq<char>| !(c2 == cv && n2 == nv) implies
                        table2_get_from(e2, 0, c2, n2) == table2_get_from(e1, 0, c2, n2) by {
                        lemma_table2_push(e1, e2[e1.len() as int], 0, c2, n2);
                    }
                    assert forall|j: int| 0 <= j < e1.len() implies !entry2_matches(
                        #[trigger] e2[j],
                        cv,
                        nv,
                    ) by {
                        if entry2_matches(e1[j], cv, nv) {
                            lemma_table2_found(e1, j, 0, cv, nv);
                        }
                    }
                    lemma_table2_first_match(e2, e1.len() as int, 0, cv, nv);
                    assert forall|i2: int, j2: int| 0 <= i2 < j2 < e2.len() implies !entry2_matches(
                        #[trigger] e2[i2],
                        e2[j2].channel@,
                        (#[trigger] e2[j2]).name@,
                    ) by {
                        if j2 == e1.len() as int {
                            assert(!entry2_matches(e2[i2], cv, nv));
                        }
                    }
                }
            }
        }
    }

    /// Remove the value for `(c, n)`; report whether one was there.
    pub fn remove(&mut self, c: &str, n: &str) -> (r: bool)
        requires
            old(self).wf(),
        ensures
            final(self).wf(),
            r == (old(self).spec_get(c@, n@) is Some),
            final(self).spec_get(c@, n@) is None,
            forall|c2: Seq<char>, n2: Seq<char>|
                !(c2 == c@ && n2 == n@) ==> final(self).spec_get(c2, n2) == old(self).spec_get(
                    c2,
                    n2,
                ),
    {
        let found = self.index_of(c, n);
        match found {
            Some(i) => {
                let ghost e1 = self.entries@;
                self.entries.remove(i);
                proof {
                    let e2 = self.entries@;
                    assert forall|c2: Seq<char>, n2: Seq<char>| !(c2 == c@ && n2 == n@) implies
                        table2_get_from(e2, 0, c2, n2) == table2_get_from(e1, 0, c2, n2) by {
                        lemma_table2_remove(e1, i as int, 0, c2, n2);
                    }
                    assert(forall|j: int|
                        0 <= j < e2.len() ==> (#[trigger] e2[j]) == if j < i as int {
                            e1[j]
                        } else {
                            e1[j + 1]
                        });
                    assert forall|j: int| 0 <= j < e2.len() implies !entry2_matches(
                        #[trigger] e2[j],
                        c@,
                        n@,
                    ) by {
                        if j < i as int {
                            assert(!entry2_matches(e1[j], e1[i as int].channel@, e1[i as int].name@));
                        } else {
                            assert(!entry2_matches(e1[j + 1], e1[i as int].channel@, e1[i as int].name@));
                        }
                    }
                    lemma_table2_absent(e2, 0, c@, n@);
                }
                true
            }
            None => false,
        }
    }
}

} // verus!
