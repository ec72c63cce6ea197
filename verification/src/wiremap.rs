//! A small name-to-integer table with insert-or-update and lookup.
//!
//! The circuit's declared inputs and outputs are kept in such a table. Its
//! view is the sequence of entries in insertion order; lookup finds the
//! first entry with the given key, and the insert below never creates a
//! second entry for a key, so the first match is the only one.

use vstd::prelude::*;
use vstd::string::StringExecFns;

verus! {

/// The position of the first entry with key `k`, at or after `i`;
/// the length of `s` when there is none.
pub open spec fn key_pos_from(s: Seq<(Seq<char>, int)>, k: Seq<char>, i: int) -> int
    decreases s.len() - i,
{
    if i < 0 || i >= s.len() {
        s.len() as int
    } else if s[i].0 == k {
        i
    } else {
        key_pos_from(s, k, i + 1)
    }
}

/// The position of the first entry with key `k`, or the length of `s`.
pub open spec fn key_pos(s: Seq<(Seq<char>, int)>, k: Seq<char>) -> int {
    key_pos_from(s, k, 0)
}

/// The value bound to `k`, if any.
pub open spec fn table_lookup(s: Seq<(Seq<char>, int)>, k: Seq<char>) -> Option<int> {
    if key_pos(s, k) < s.len() {
        Some(s[key_pos(s, k)].1)
    } else {
        None
    }
}

/// `s` with `k` bound to `v`: the first entry for `k` is replaced,
/// or a new entry is appended.
pub open spec fn table_insert(s: Seq<(Seq<char>, int)>, k: Seq<char>, v: int) -> Seq<
    (Seq<char>, int),
> {
    if key_pos(s, k) < s.len() {
        s.update(key_pos(s, k), (k, v))
    } else {
        s.push((k, v))
    }
}

/// A table from wire names to 32-bit integers.
pub struct WireMap {
    entries: Vec<(String, i32)>,
}

/// Every value of the table fits in 32 bits: each came from an `i32`.
pub proof fn lemma_wiremap_values_i32(w: WireMap)
    ensures
        forall|j: int| 0 <= j < w@.len() ==> i32::MIN <= #[trigger] w@[j].1 <= i32::MAX,
{
    assert forall|j: int| 0 <= j < w@.len() implies i32::MIN <= #[trigger] w@[j].1 <= i32::MAX by {
        assert(w@[j] == (w.entries@[j].0@, w.entries@[j].1 as int));
    }
}

impl View for WireMap {
    type V = Seq<(Seq<char>, int)>;

    closed spec fn view(&self) -> Seq<(Seq<char>, int)> {
        self.entries@.map(|i: int, e: (String, i32)| (e.0@, e.1 as int))
    }
}

impl WireMap {
    /// An empty table.
    pub fn new() -> (r: WireMap)
        ensures
            r@ == Seq::<(Seq<char>, int)>::empty(),
    {
        let r = WireMap { entries: Vec::new() };
        proof {
            assert(r@ =~= Seq::<(Seq<char>, int)>::empty());
        }
        r
    }

    /// How many names are bound.
    pub fn len(&self) -> (r: usize)
        ensures
            r == self@.len(),
    {
        self.entries.len()
    }

    /// The name of the entry at `i`.
    pub fn key_at(&self, i: usize) -> (r: &String)
        requires
            i < self@.len(),
        ensures
            r@ == self@[i as int].0,
    {
        &self.entries[i].0
    }

    /// The value of the entry at `i`.
    pub fn val_at(&self, i: usize) -> (r: i32)
        requires
            i < self@.len(),
        ensures
            r as int == self@[i as int].1,
    {
        self.entries[i].1
    }

    /// The value bound to `name`, if any.
    pub fn get(&self, name: &String) -> (r: Option<i32>)
        ensures
            match r {
                Some(v) => table_lookup(self@, name@) == Some(v as int),
                None => table_lookup(self@, name@) is None,
            },
    {
        let n = self.entries.len();
        let mut i: usize = 0;
        while i < n
            invariant
                n == self@.len(),
                0 <= i <= n,
                key_pos(self@, name@) == key_pos_from(self@, name@, i as int),
            decreases n - i,
        {
            proof {
                assert(self@[i as int] == (self.entries@[i as int].0@, self.entries@[
                    i as int
                ].1 as int));
            }
            if self.entries[i].0 == *name {
                proof {
                    assert(key_pos_from(self@, name@, i as int) == i as int);
                }
                return Some(self.entries[i].1);
            }
            proof {
                assert(key_pos_from(self@, name@, i as int) == key_pos_from(
                    self@,
                    name@,
                    i as int + 1,
                ));
            }
            i += 1;
        }
        None
    }

    /// Whether `name` is bound.
    pub fn contains_key(&self, name: &String) -> (r: bool)
        ensures
            r == (table_lookup(self@, name@) is Some),
    {
        self.get(name).is_some()
    }

    /// Binds `name` to `val`, replacing any earlier binding.
    pub fn insert(&mut self, name: &str, val: i32)
        ensures
            final(self)@ == table_insert(old(self)@, name@, val as int),
    {
        let key = String::from_str(name);
        let n = self.entries.len();
        let mut i: usize = 0;
        while i < n
            invariant
                n == self@.len(),
                0 <= i <= n,
                *self == *old(self),
                key@ == name@,
                key_pos(self@, name@) == key_pos_from(self@, name@, i as int),
            decreases n - i,
        {
            proof {
                assert(self@[i as int] == (self.entries@[i as int].0@, self.entries@[
                    i as int
                ].1 as int));
            }
            if self.entries[i].0 == key {
                proof {
                    assert(key_pos_from(self@, name@, i as int) == i as int);
                }
                self.entries[i] = (key, val);
                proof {
                    assert(self@ =~= table_insert(old(self)@, name@, val as int));
                }
                return ;
            }
            proof {
                assert(key_pos_from(self@, name@, i as int) == key_pos_from(
                    self@,
                    name@,
                    i as int + 1,
                ));
            }
            i += 1;
        }
        self.entries.push((key, val));
        proof {
            assert(self@ =~= table_insert(old(self)@, name@, val as int));
        }
    }
}

} // verus!
