//! A small ordered table keyed by owner: each owner at most once, in the
//! order in which they were first entered.
//!
//! The schedules are walked row by row on every tick, and what a tick hands
//! back is stated row by row. A table keeps its rows in one order from call
//! to call, which a hash map does not promise.

use vstd::prelude::*;

verus! {

/// No owner occurs twice.
pub open spec fn keys_unique<T>(s: Seq<(u64, T)>) -> bool {
    forall|i: int, j: int| 0 <= i < j < s.len() ==> s[i].0 != s[j].0
}

/// `key` occurs among the rows.
pub open spec fn has<T>(s: Seq<(u64, T)>, key: u64) -> bool {
    exists|i: int| 0 <= i < s.len() && (#[trigger] s[i]).0 == key
}

/// The row of `key`, if it has one.
pub open spec fn find<T>(s: Seq<(u64, T)>, key: u64) -> Option<int> {
    if has(s, key) {
        Some(choose|i: int| 0 <= i < s.len() && (#[trigger] s[i]).0 == key)
    } else {
        None
    }
}

/// The value entered for `key`, if there is one.
pub open spec fn lookup<T>(s: Seq<(u64, T)>, key: u64) -> Option<T> {
    match find(s, key) {
        Some(i) => Some(s[i].1),
        None => None,
    }
}

/// The rows after `value` is entered for `key`: in place of the old value
/// where there was one, else at the end.
pub open spec fn with_row<T>(s: Seq<(u64, T)>, key: u64, value: T) -> Seq<(u64, T)> {
    match find(s, key) {
        Some(i) => s.update(i, (key, value)),
        None => s.push((key, value)),
    }
}

/// The rows without that of `key`.
pub open spec fn without_row<T>(s: Seq<(u64, T)>, key: u64) -> Seq<(u64, T)> {
    match find(s, key) {
        Some(i) => s.remove(i),
        None => s,
    }
}

/// Where no owner occurs twice, the row that holds `key` is the one that
/// `find` names.
pub proof fn lemma_find<T>(s: Seq<(u64, T)>, key: u64, i: int)
    requires
        keys_unique(s),
        0 <= i < s.len(),
        s[i].0 == key,
    ensures
        find(s, key) == Some(i),
        lookup(s, key) == Some(s[i].1),
{
    assert(has(s, key));
    let j = choose|j: int| 0 <= j < s.len() && (#[trigger] s[j]).0 == key;
    if i < j {
        assert(s[i].0 != s[j].0);
    }
    if j < i {
        assert(s[j].0 != s[i].0);
    }
}

/// Entering and removing rows keeps every owner unique, and is seen by
/// `lookup` as on a map.
pub proof fn lemma_rows<T>(s: Seq<(u64, T)>, key: u64, value: T, other: u64)
    requires
        keys_unique(s),
    ensures
        keys_unique(with_row(s, key, value)),
        keys_unique(without_row(s, key)),
        lookup(with_row(s, key, value), key) == Some(value),
        lookup(without_row(s, key), key) is None,
        other != key ==> lookup(with_row(s, key, value), other) == lookup(s, other),
        other != key ==> lookup(without_row(s, key), other) == lookup(s, other),
{
    let w = with_row(s, key, value);
    let r = without_row(s, key);
    match find(s, key) {
        Some(i) => {
            assert(0 <= i < s.len() && s[i].0 == key);
            assert forall|a: int, b: int| 0 <= a < b < w.len() implies w[a].0 != w[b].0 by {
                assert(s[a].0 != s[b].0);
            }
            lemma_find(w, key, i);
            assert forall|a: int, b: int| 0 <= a < b < r.len() implies r[a].0 != r[b].0 by {
                let a0 = if a < i { a } else { a + 1 };
                let b0 = if b < i { b } else { b + 1 };
                assert(s[a0].0 != s[b0].0);
            }
            if has(r, key) {
                let j = choose|j: int| 0 <= j < r.len() && (#[trigger] r[j]).0 == key;
                let j0 = if j < i { j } else { j + 1 };
                assert(r[j] == s[j0]);
                if j0 < i {
                    assert(s[j0].0 != s[i].0);
                } else {
                    assert(s[i].0 != s[j0].0);
                }
            }
            if other != key {
                if has(s, other) {
                    let j = choose|j: int| 0 <= j < s.len() && (#[trigger] s[j]).0 == other;
                    assert(w[j] == s[j]);
                    lemma_find(w, other, j);
                    let j1 = if j < i { j } else { j - 1 };
                    assert(r[j1] == s[j]);
                    lemma_find(r, other, j1);
                } else {
                    if has(w, other) {
                        let j = choose|j: int| 0 <= j < w.len() && (#[trigger] w[j]).0 == other;
                        assert(s[j].0 == other);
                    }
                    if has(r, other) {
                        let j = choose|j: int| 0 <= j < r.len() && (#[trigger] r[j]).0 == other;
                        let j0 = if j < i { j } else { j + 1 };
                        assert(s[j0].0 == other);
                    }
                }
            }
        },
        None => {
            assert forall|a: int, b: int| 0 <= a < b < w.len() implies w[a].0 != w[b].0 by {
                if b == s.len() {
                    assert(s[a].0 != key);
                } else {
                    assert(s[a].0 != s[b].0);
                }
            }
            lemma_find(w, key, s.len() as int);
            if other != key {
                if has(s, other) {
                    let j = choose|j: int| 0 <= j < s.len() && (#[trigger] s[j]).0 == other;
                    assert(w[j] == s[j]);
                    lemma_find(w, other, j);
                } else if has(w, other) {
                    let j = choose|j: int| 0 <= j < w.len() && (#[trigger] w[j]).0 == other;
                    assert(s[j].0 == other);
                }
            }
        },
    }
}

/// An ordered table with one row per owner.
pub struct Roster<T> {
    rows: Vec<(u64, T)>,
}

impl<T> View for Roster<T> {
    type V = Seq<(u64, T)>;

    closed spec fn view(&self) -> Seq<(u64, T)> {
        self.rows@
    }
}

impl<T> Roster<T> {
    /// No owner has two rows.
    pub open spec fn wf(&self) -> bool {
        keys_unique(self@)
    }

    /// An empty table.
    pub fn new() -> (r: Self)
        ensures
            r.wf(),
            r@ == Seq::<(u64, T)>::empty(),
    {
        Roster { rows: Vec::new() }
    }

    /// The number of rows.
    pub fn len(&self) -> (n: usize)
        ensures
            n == self@.len(),
    {
        self.rows.len()
    }

    /// The owner of row `index`.
    pub fn key_at(&self, index: usize) -> (key: u64)
        requires
            index < self@.len(),
        ensures
            key == self@[index as int].0,
    {
        self.rows[index].0
    }

    /// The value of row `index`.
    pub fn value_at(&self, index: usize) -> (value: &T)
        requires
            index < self@.len(),
        ensures
            *value == self@[index as int].1,
    {
        &self.rows[index].1
    }

    /// Puts `value` in row `index` and hands back what was there.
    pub fn replace_at(&mut self, index: usize, value: T) -> (previous: T)
        requires
            index < old(self)@.len(),
        ensures
            previous == old(self)@[index as int].1,
            final(self)@ == old(self)@.update(index as int, (old(self)@[index as int].0, value)),
            old(self).wf() ==> final(self).wf(),
    {
        let (key, previous) = self.rows.remove(index);
        self.rows.insert(index, (key, value));
        assert(self@ =~= old(self)@.update(index as int, (key, value)));
        proof {
            if old(self).wf() {
                assert forall|a: int, b: int| 0 <= a < b < self@.len() implies self@[a].0
                    != self@[b].0 by {
                    assert(old(self)@[a].0 != old(self)@[b].0);
                }
            }
        }
        previous
    }

    /// The row of `key`, if it has one.
    pub fn position(&self, key: u64) -> (r: Option<usize>)
        requires
            self.wf(),
        ensures
            r matches Some(i) ==> find(self@, key) == Some(i as int) && i < self@.len()
                && self@[i as int].0 == key,
            r is None ==> find(self@, key) is None,
    {
        let mut i: usize = 0;
        while i < self.rows.len()
            invariant
                i <= self.rows.len(),
                self.wf(),
                forall|j: int| 0 <= j < i ==> (#[trigger] self@[j]).0 != key,
            decreases self.rows.len() - i,
        {
            if self.rows[i].0 == key {
                proof {
                    lemma_find(self@, key, i as int);
                }
                return Some(i);
            }
            i += 1;
        }
        None
    }

    /// Whether `key` has a row.
    pub fn contains(&self, key: u64) -> (b: bool)
        requires
            self.wf(),
        ensures
            b == has(self@, key),
            b == (lookup(self@, key) is Some),
    {
        self.position(key).is_some()
    }

    /// The value entered for `key`.
    pub fn get(&self, key: u64) -> (r: Option<&T>)
        requires
            self.wf(),
        ensures
            r == match lookup(self@, key) {
                Some(value) => Some(&value),
                None => None,
            },
    {
        match self.position(key) {
            Some(i) => Some(&self.rows[i].1),
            None => None,
        }
    }

    /// Enters `value` for `key`, in place of an old value where there is
    /// one, which is handed back.
    pub fn put(&mut self, key: u64, value: T) -> (previous: Option<T>)
        requires
            old(self).wf(),
        ensures
            final(self).wf(),
            final(self)@ == with_row(old(self)@, key, value),
            previous == lookup(old(self)@, key),
    {
        proof {
            lemma_rows(self@, key, value, key);
        }
        match self.position(key) {
            Some(i) => Some(self.replace_at(i, value)),
            None => {
                self.rows.push((key, value));
                None
            },
        }
    }

    /// Removes the row of `key` and hands back its value.
    pub fn take(&mut self, key: u64) -> (previous: Option<T>)
        requires
            old(self).wf(),
        ensures
            final(self).wf(),
            final(self)@ == without_row(old(self)@, key),
            previous == lookup(old(self)@, key),
    {
        proof {
            lemma_rows(self@, key, old(self)@[0].1, key);
        }
        match self.position(key) {
            Some(i) => {
                let (_, value) = self.rows.remove(i);
                Some(value)
            },
            None => None,
        }
    }
}

} // verus!
