//! Values by text.
use vstd::prelude::*;
use vstd::string::*;
use crate::text::str_eq;

verus! {

/// A table with one value at most for each key.
#[derive(Debug)]
pub struct TextTable<V> {
    entries: Vec<(String, V)>,
}

/// The rows of a table.
pub open spec fn rows_of<V>(v: Seq<(String, V)>) -> Seq<(Seq<char>, V)> {
    Seq::new(v.len(), |i: int| (v[i].0@, v[i].1))
}

/// Whether no key stands in two rows.
pub open spec fn keys_distinct<V>(s: Seq<(Seq<char>, V)>) -> bool {
    forall|i: int, j: int| 0 <= i < j < s.len() ==> (#[trigger] s[i]).0 != (#[trigger] s[j]).0
}

/// Where a key stands among rows.
pub open spec fn row_of<V>(s: Seq<(Seq<char>, V)>, key: Seq<char>) -> Option<int>
    decreases s.len(),
{
    if s.len() == 0 {
        None
    } else {
        match row_of(s.drop_last(), key) {
            Some(i) => Some(i),
            None => if s.last().0 == key {
                Some(s.len() - 1)
            } else {
                None
            },
        }
    }
}

/// The rows after a key got a value: its row keeps its place, a new key comes last.
pub open spec fn with_row<V>(s: Seq<(Seq<char>, V)>, key: Seq<char>, value: V) -> Seq<
    (Seq<char>, V),
> {
    match row_of(s, key) {
        Some(i) => s.update(i, (key, value)),
        None => s.push((key, value)),
    }
}

/// The row of a key is the first one that holds it.
pub proof fn row_of_is_first<V>(s: Seq<(Seq<char>, V)>, key: Seq<char>)
    ensures
        match row_of(s, key) {
            Some(i) => 0 <= i < s.len() && s[i].0 == key && forall|k: int|
                0 <= k < i ==> (#[trigger] s[k]).0 != key,
            None => forall|k: int| 0 <= k < s.len() ==> (#[trigger] s[k]).0 != key,
        },
    decreases s.len(),
{
    if s.len() > 0 {
        row_of_is_first(s.drop_last(), key);
        assert(forall|k: int| 0 <= k < s.len() - 1 ==> (#[trigger] s[k]) == s.drop_last()[k]);
    }
}

/// The value of a key among rows.
pub open spec fn value_of<V>(s: Seq<(Seq<char>, V)>, key: Seq<char>) -> Option<V> {
    match row_of(s, key) {
        Some(i) => Some(s[i].1),
        None => None,
    }
}

/// A key with a new value has that value, and every other key keeps its own.
pub proof fn with_row_values<V>(s: Seq<(Seq<char>, V)>, key: Seq<char>, value: V, other: Seq<char>)
    ensures
        value_of(with_row(s, key, value), other) == (if other == key {
            Some(value)
        } else {
            value_of(s, other)
        }),
{
    let t = with_row(s, key, value);
    row_of_is_first(s, key);
    row_of_is_first(s, other);
    row_of_is_first(t, other);
    row_of_is_first(t, key);
    match row_of(s, key) {
        Some(i) => {
            assert(forall|k: int| 0 <= k < s.len() ==> (#[trigger] t[k]).0 == s[k].0);
            match row_of(t, other) {
                Some(j) => {
                    assert(s[j].0 == other);
                },
                None => {},
            }
            match row_of(s, other) {
                Some(j) => {
                    assert(t[j].0 == other);
                },
                None => {},
            }
        },
        None => {
            assert(forall|k: int| 0 <= k < s.len() ==> (#[trigger] t[k]) == s[k]);
            assert(t[s.len() as int] == (key, value));
            match row_of(t, other) {
                Some(j) => {
                    if j < s.len() {
                        assert(s[j].0 == other);
                    }
                },
                None => {},
            }
            match row_of(s, other) {
                Some(j) => {
                    assert(t[j].0 == other);
                },
                None => {},
            }
        },
    }
}

/// A key that was taken out has no value, and every other key keeps its own.
pub proof fn removed_row_values<V>(s: Seq<(Seq<char>, V)>, key: Seq<char>, other: Seq<char>)
    requires
        keys_distinct(s),
        row_of(s, key) is Some,
    ensures
        value_of(s.remove(row_of(s, key)->Some_0), other) == (if other == key {
            None
        } else {
            value_of(s, other)
        }),
{
    row_of_is_first(s, key);
    row_of_is_first(s, other);
    let i = row_of(s, key)->Some_0;
    let t = s.remove(i);
    row_of_is_first(t, other);
    assert(forall|k: int| 0 <= k < i ==> (#[trigger] t[k]) == s[k]);
    assert(forall|k: int| i <= k < t.len() ==> (#[trigger] t[k]) == s[k + 1]);
    match row_of(t, other) {
        Some(j) => {
            if j < i {
                assert(s[j].0 == other);
            } else {
                assert(s[j + 1].0 == other);
            }
        },
        None => {},
    }
    match row_of(s, other) {
        Some(j) => {
            if j < i {
                assert(t[j].0 == other);
            } else if j > i {
                assert(t[j - 1].0 == other);
            }
        },
        None => {},
    }
}

impl<V> View for TextTable<V> {
    type V = Seq<(Seq<char>, V)>;

    closed spec fn view(&self) -> Seq<(Seq<char>, V)> {
        rows_of(self.entries@)
    }
}

impl<V> TextTable<V> {
    /// No key stands in two rows.
    pub open spec fn wf(self) -> bool {
        keys_distinct(self@)
    }

    /// An empty table.
    pub fn new() -> (r: Self)
        ensures
            r@ == Seq::<(Seq<char>, V)>::empty(),
            r.wf(),
    {
        let r = TextTable { entries: Vec::new() };
        assert(r@ =~= Seq::<(Seq<char>, V)>::empty());
        r
    }

    fn find(&self, key: &str) -> (r: Option<usize>)
        ensures
            match r {
                Some(i) => row_of(self@, key@) == Some(i as int) && i < self.entries@.len(),
                None => row_of(self@, key@) is None,
            },
    {
        let mut i: usize = 0;
        while i < self.entries.len()
            invariant
                i <= self.entries@.len(),
                forall|k: int| 0 <= k < i ==> (#[trigger] self@[k]).0 != key@,
            decreases self.entries@.len() - i,
        {
            if str_eq(self.entries[i].0.as_str(), key) {
                proof {
                    row_of_is_first(self@, key@);
                    assert(self@[i as int].0 == key@);
                }
                return Some(i);
            }
            assert(self@[i as int].0 != key@);
            i += 1;
        }
        proof {
            row_of_is_first(self@, key@);
        }
        None
    }

    /// Give a key a value, in place of an earlier one.
    pub fn insert(&mut self, key: String, value: V)
        requires
            old(self).wf(),
        ensures
            final(self)@ == with_row(old(self)@, key@, value),
            final(self).wf(),
    {
        let ghost before = self@;
        proof {
            row_of_is_first(before, key@);
        }
        match self.find(key.as_str()) {
            Some(i) => {
                self.entries.set(i, (key, value));
                assert(self@ =~= before.update(i as int, (key@, value)));
            },
            None => {
                self.entries.push((key, value));
                assert(self@ =~= before.push((key@, value)));
            },
        }
    }

    /// The value of a key.
    pub fn get(&self, key: &str) -> (r: Option<&V>)
        ensures
            match row_of(self@, key@) {
                Some(i) => r is Some && *r->Some_0 == self@[i].1,
                None => r is None,
            },
    {
        match self.find(key) {
            Some(i) => Some(&self.entries[i].1),
            None => None,
        }
    }

    /// Take a key and its value out.
    pub fn remove(&mut self, key: &str) -> (r: Option<V>)
        requires
            old(self).wf(),
        ensures
            final(self).wf(),
            match row_of(old(self)@, key@) {
                Some(i) => r == Some(old(self)@[i].1) && final(self)@ == old(self)@.remove(i),
                None => r is None && final(self)@ == old(self)@,
            },
    {
        let ghost before = self@;
        proof {
            row_of_is_first(before, key@);
        }
        match self.find(key) {
            Some(i) => {
                let (_, value) = self.entries.remove(i);
                assert(self@ =~= before.remove(i as int));
                Some(value)
            },
            None => None,
        }
    }

    /// How many keys have a value.
    pub fn len(&self) -> (r: usize)
        ensures
            r == self@.len(),
    {
        self.entries.len()
    }

    /// The key of a row.
    pub fn key_at(&self, i: usize) -> (r: &str)
        requires
            i < self@.len(),
        ensures
            r@ == self@[i as int].0,
    {
        self.entries[i].0.as_str()
    }

    /// The value of a row.
    pub fn value_at(&self, i: usize) -> (r: &V)
        requires
            i < self@.len(),
        ensures
            *r == self@[i as int].1,
    {
        &self.entries[i].1
    }
}

} // verus!
