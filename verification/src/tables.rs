//! Association tables keyed by process identifier.
//!
//! Every data source of the pipeline produces a partial map from process
//! identifier to some value, held as a vector of pairs with unique keys.

use vstd::prelude::*;

verus! {

/// Index of the first entry with key `pid`, if any.
pub open spec fn spec_find_key<T>(t: Seq<(u32, T)>, pid: u32) -> Option<int>
    decreases t.len(),
{
    if t.len() == 0 {
        None
    } else if t[0].0 == pid {
        Some(0)
    } else {
        match spec_find_key(t.subrange(1, t.len() as int), pid) {
            Some(i) => Some(i + 1),
            None => None,
        }
    }
}

/// Value stored under key `pid`, if any.
pub open spec fn spec_assoc<T>(t: Seq<(u32, T)>, pid: u32) -> Option<T> {
    match spec_find_key(t, pid) {
        Some(i) => Some(t[i].1),
        None => None,
    }
}

/// The table holds each key at most once.
pub open spec fn unique_keys<T>(t: Seq<(u32, T)>) -> bool {
    forall|i: int, j: int| 0 <= i < j < t.len() ==> (#[trigger] t[i]).0 != (#[trigger] t[j]).0
}

/// A match at index `i` with no earlier match is what the key search finds.
pub proof fn lemma_find_key_some<T>(t: Seq<(u32, T)>, pid: u32, i: int)
    requires
        0 <= i < t.len(),
        t[i].0 == pid,
        forall|j: int| 0 <= j < i ==> (#[trigger] t[j]).0 != pid,
    ensures
        spec_find_key(t, pid) == Some(i),
    decreases i,
{
    if i > 0 {
        let sub = t.subrange(1, t.len() as int);
        assert forall|j: int| 0 <= j < i - 1 implies (#[trigger] sub[j]).0 != pid by {
            assert(sub[j] == t[j + 1]);
        }
        lemma_find_key_some(sub, pid, i - 1);
    }
}

/// No matching key anywhere means the key search finds nothing.
pub proof fn lemma_find_key_none<T>(t: Seq<(u32, T)>, pid: u32)
    requires
        forall|j: int| 0 <= j < t.len() ==> (#[trigger] t[j]).0 != pid,
    ensures
        spec_find_key(t, pid) is None,
    decreases t.len(),
{
    if t.len() > 0 {
        let sub = t.subrange(1, t.len() as int);
        assert forall|j: int| 0 <= j < sub.len() implies (#[trigger] sub[j]).0 != pid by {
            assert(sub[j] == t[j + 1]);
        }
        lemma_find_key_none(sub, pid);
    }
}

/// The key search finds a valid index whose entry has the key, behind which
/// no other entry has it.
pub proof fn lemma_find_key_bounds<T>(t: Seq<(u32, T)>, pid: u32)
    ensures
        match spec_find_key(t, pid) {
            Some(i) => 0 <= i < t.len() && t[i].0 == pid && (forall|j: int|
                0 <= j < i ==> (#[trigger] t[j]).0 != pid),
            None => forall|j: int| 0 <= j < t.len() ==> (#[trigger] t[j]).0 != pid,
        },
    decreases t.len(),
{
    if t.len() > 0 && t[0].0 != pid {
        let sub = t.subrange(1, t.len() as int);
        lemma_find_key_bounds(sub, pid);
        match spec_find_key(sub, pid) {
            Some(i) => {
                assert(t[i + 1] == sub[i]);
                assert forall|j: int| 0 <= j < i + 1 implies (#[trigger] t[j]).0 != pid by {
                    if j >= 1 {
                        assert(sub[j - 1] == t[j]);
                    }
                }
            },
            None => {
                assert forall|j: int| 0 <= j < t.len() implies (#[trigger] t[j]).0 != pid by {
                    if j >= 1 {
                        assert(sub[j - 1] == t[j]);
                    }
                }
            },
        }
    }
}

/// Position of the entry with key `pid` in the table, if any.
pub fn find_key<T>(entries: &Vec<(u32, T)>, pid: u32) -> (r: Option<usize>)
    ensures
        match r {
            Some(i) => i < entries@.len() && entries@[i as int].0 == pid && (forall|j: int|
                0 <= j < i ==> (#[trigger] entries@[j]).0 != pid),
            None => forall|j: int| 0 <= j < entries@.len() ==> (#[trigger] entries@[j]).0 != pid,
        },
{
    let n = entries.len();
    let mut i: usize = 0;
    while i < n
        invariant
            n == entries@.len(),
            0 <= i <= n,
            forall|j: int| 0 <= j < i ==> (#[trigger] entries@[j]).0 != pid,
        decreases n - i,
    {
        if entries[i].0 == pid {
            return Some(i);
        }
        i += 1;
    }
    None
}

} // verus!
