//! Pending-entry tables: ordered lists of `(key, value)` pairs with distinct
//! keys, functionally a map. A correlation table keys one-shot completion
//! handles (or a goal identity) by the transport-assigned correlation id of
//! an outstanding request; the goal routers key sinks by goal identity.
//!
//! `register` inserts a pending entry; `resolve` removes and returns the
//! entry matching a key, or returns `None` and leaves every entry untouched
//! when the key is absent (a stale or unrelated inbound message).

use vstd::prelude::*;
use crate::goal_id::GoalId;

verus! {

/// Whether some entry of the table has key `k`.
pub open spec fn has_key<K, V>(s: Seq<(K, V)>, k: K) -> bool {
    exists|i: int| 0 <= i < s.len() && s[i].0 == k
}

/// At most one entry per key.
pub open spec fn distinct_keys<K, V>(s: Seq<(K, V)>) -> bool {
    forall|i: int, j: int| 0 <= i < j < s.len() ==> s[i].0 != s[j].0
}

/// The index of the entry with key `k` (unique when keys are distinct).
pub open spec fn key_index<K, V>(s: Seq<(K, V)>, k: K) -> int {
    choose|i: int| 0 <= i < s.len() && s[i].0 == k
}

/// The value stored under key `k`.
pub open spec fn value_of<K, V>(s: Seq<(K, V)>, k: K) -> V {
    s[key_index(s, k)].1
}

/// The table after removing the entry with key `k` by a swap with the last
/// entry, as `resolve` leaves it; unchanged when `k` is absent.
pub open spec fn remove_entry<K, V>(s: Seq<(K, V)>, k: K) -> Seq<(K, V)> {
    if has_key(s, k) {
        s.update(key_index(s, k), s.last()).drop_last()
    } else {
        s
    }
}

/// What removing a present key leaves behind: one entry fewer, the matched
/// key gone, every other entry untouched, distinctness kept.
pub proof fn lemma_remove_entry<K, V>(s: Seq<(K, V)>, k: K)
    requires
        distinct_keys(s),
        has_key(s, k),
    ensures
        s.contains((k, value_of(s, k))),
        remove_entry(s, k).len() == s.len() - 1,
        !has_key(remove_entry(s, k), k),
        distinct_keys(remove_entry(s, k)),
        forall|p: (K, V)| p.0 != k ==> (remove_entry(s, k).contains(p) <==> s.contains(p)),
        forall|k2: K| k2 != k ==> (has_key(remove_entry(s, k), k2) <==> has_key(s, k2)),
        forall|k2: K| k2 != k && has_key(s, k2) ==> value_of(remove_entry(s, k), k2) == value_of(
            s,
            k2,
        ),
{
    let i = key_index(s, k);
    let r = remove_entry(s, k);
    assert(0 <= i < s.len() && s[i].0 == k);
    assert(s.contains((k, value_of(s, k))));
    assert forall|j: int| 0 <= j < s.len() && j != i implies s[j].0 != k by {
        if s[j].0 == k {
            if j < i {
                assert(s[j].0 != s[i].0);
            } else {
                assert(s[i].0 != s[j].0);
            }
        }
    }
    assert forall|j: int| 0 <= j < r.len() implies r[j].0 != k by {
        if j == i {
            assert(r[j] == s[s.len() - 1]);
        } else {
            assert(r[j] == s[j]);
        }
    }
    assert forall|p: (K, V)| p.0 != k && s.contains(p) implies r.contains(p) by {
        let j = choose|j: int| 0 <= j < s.len() && s[j] == p;
        if j < s.len() - 1 {
            if j == i {
                assert(s[j].0 == k);
            } else {
                assert(r[j] == p);
            }
        } else {
            if i < s.len() - 1 {
                assert(r[i] == p);
            } else {
                assert(s[i].0 == k);
            }
        }
    }
    assert forall|p: (K, V)| p.0 != k && r.contains(p) implies s.contains(p) by {
        let j = choose|j: int| 0 <= j < r.len() && r[j] == p;
        if j == i {
            assert(s[s.len() - 1] == p);
        } else {
            assert(s[j] == p);
        }
    }
    assert forall|j: int, j2: int| 0 <= j < j2 < r.len() implies r[j].0 != r[j2].0 by {
        assert(r[j] == if j == i {
            s[s.len() - 1]
        } else {
            s[j]
        });
        assert(r[j2] == if j2 == i {
            s[s.len() - 1]
        } else {
            s[j2]
        });
    }
    assert forall|k2: K| k2 != k && has_key(s, k2) implies has_key(r, k2) && value_of(r, k2)
        == value_of(s, k2) by {
        let j = key_index(s, k2);
        assert(0 <= j < s.len() && s[j].0 == k2);
        assert(s.contains((k2, s[j].1)));
        assert(r.contains((k2, s[j].1)));
        let j2 = choose|x: int| 0 <= x < r.len() && r[x] == (k2, s[j].1);
        assert(has_key(r, k2));
        let j3 = key_index(r, k2);
        assert(0 <= j3 < r.len() && r[j3].0 == k2);
        assert(r[j3] == if j3 == i {
            s[s.len() - 1]
        } else {
            s[j3]
        });
        if j3 == i {
            assert(value_of(r, k2) == s[s.len() - 1].1);
            assert(s[s.len() - 1].0 == k2);
            assert(s.len() - 1 == j);
        } else {
            assert(value_of(r, k2) == s[j3].1);
            assert(j3 == j);
        }
    }
    assert forall|k2: K| k2 != k && has_key(r, k2) implies has_key(s, k2) by {
        let j = key_index(r, k2);
        assert(0 <= j < r.len() && r[j].0 == k2);
        if j == i {
            assert(s[s.len() - 1].0 == k2);
        } else {
            assert(s[j].0 == k2);
        }
    }
}

/// Inserts a pending entry into a correlation table. The transport assigns a
/// correlation id that is unique among the currently-pending requests of the
/// table's sub-channel, so the key is required to be fresh.
pub fn register<V>(table: &mut Vec<(i64, V)>, id: i64, sink: V)
    requires
        distinct_keys(old(table)@),
        !has_key(old(table)@, id),
    ensures
        final(table)@ == old(table)@.push((id, sink)),
        distinct_keys(final(table)@),
        has_key(final(table)@, id),
        value_of(final(table)@, id) == sink,
        forall|k2: i64| k2 != id ==> (has_key(final(table)@, k2) <==> has_key(old(table)@, k2)),
        forall|k2: i64| k2 != id && has_key(old(table)@, k2) ==> value_of(final(table)@, k2)
            == value_of(old(table)@, k2),
    {
    table.push((id, sink));
    proof {
        lemma_push_entry(old(table)@, id, sink);
    }
}

/// Inserts an entry into a goal-keyed router table, under the same freshness
/// requirement.
pub fn register_goal<V>(table: &mut Vec<(GoalId, V)>, goal: GoalId, sink: V)
    requires
        distinct_keys(old(table)@),
        !has_key(old(table)@, goal),
    ensures
        final(table)@ == old(table)@.push((goal, sink)),
        distinct_keys(final(table)@),
        has_key(final(table)@, goal),
        value_of(final(table)@, goal) == sink,
        forall|k2: GoalId| k2 != goal ==> (has_key(final(table)@, k2) <==> has_key(
            old(table)@,
            k2,
        )),
        forall|k2: GoalId| k2 != goal && has_key(old(table)@, k2) ==> value_of(final(table)@, k2)
            == value_of(old(table)@, k2),
    {
    table.push((goal, sink));
    proof {
        lemma_push_entry(old(table)@, goal, sink);
    }
}

/// What pushing a fresh key adds: the new entry alone, everything else kept.
pub proof fn lemma_push_entry<K, V>(s: Seq<(K, V)>, k: K, v: V)
    requires
        distinct_keys(s),
        !has_key(s, k),
    ensures
        distinct_keys(s.push((k, v))),
        has_key(s.push((k, v)), k),
        value_of(s.push((k, v)), k) == v,
        forall|k2: K| k2 != k ==> (has_key(s.push((k, v)), k2) <==> has_key(s, k2)),
        forall|k2: K| k2 != k && has_key(s, k2) ==> value_of(s.push((k, v)), k2) == value_of(
            s,
            k2,
        ),
        forall|p: (K, V)| s.push((k, v)).contains(p) <==> (s.contains(p) || p == (k, v)),
{
    let r = s.push((k, v));
    assert forall|p: (K, V)| r.contains(p) implies (s.contains(p) || p == (k, v)) by {
        let j = choose|j: int| 0 <= j < r.len() && r[j] == p;
        if j < s.len() {
            assert(s[j] == p);
        }
    }
    assert forall|p: (K, V)| s.contains(p) implies r.contains(p) by {
        let j = choose|j: int| 0 <= j < s.len() && s[j] == p;
        assert(r[j] == p);
    }
    assert(r[s.len() as int] == (k, v));
    assert(has_key(r, k));
    let i = key_index(r, k);
    assert(0 <= i < r.len() && r[i].0 == k);
    if i < s.len() {
        assert(s[i].0 == k);
        assert(has_key(s, k));
    }
    assert(value_of(r, k) == v);
    assert forall|k2: K| k2 != k && has_key(s, k2) implies has_key(r, k2) && value_of(r, k2)
        == value_of(s, k2) by {
        let j = key_index(s, k2);
        assert(r[j].0 == k2);
        assert(has_key(r, k2));
        let j2 = key_index(r, k2);
        assert(0 <= j2 < r.len() && r[j2].0 == k2);
        assert(j2 < s.len());
        assert(j2 == j);
    }
    assert forall|k2: K| k2 != k && has_key(r, k2) implies has_key(s, k2) by {
        let j = key_index(r, k2);
        assert(j < s.len());
        assert(s[j].0 == k2);
    }
}

/// Whether a router table holds an entry for `goal`, without touching it.
pub fn contains_goal<V>(table: &Vec<(GoalId, V)>, goal: GoalId) -> (r: bool)
    ensures
        r == has_key(table@, goal),
{
    let n = table.len();
    let mut i: usize = 0;
    while i < n
        invariant
            n == table@.len(),
            0 <= i <= n,
            forall|j: int| 0 <= j < i ==> table@[j].0 != goal,
        decreases n - i,
    {
        if table[i].0.val == goal.val {
            assert(table@[i as int].0 == goal);
            return true;
        }
        i = i + 1;
    }
    false
}

/// Removes and returns the entry matching `id`, or returns `None` and leaves
/// the table untouched when no entry matches.
pub fn resolve<V>(table: &mut Vec<(i64, V)>, id: i64) -> (r: Option<V>)
    requires
        distinct_keys(old(table)@),
    ensures
        final(table)@ == remove_entry(old(table)@, id),
        distinct_keys(final(table)@),
        has_key(old(table)@, id) ==> r == Some(value_of(old(table)@, id)),
        !has_key(old(table)@, id) ==> r is None && final(table)@ == old(table)@,
    {
    let n = table.len();
    let mut i: usize = 0;
    while i < n
        invariant
            n == table@.len(),
            0 <= i <= n,
            table@ == old(table)@,
            distinct_keys(table@),
            forall|j: int| 0 <= j < i ==> table@[j].0 != id,
        decreases n - i,
    {
        if table[i].0 == id {
            assert(has_key(table@, id));
            proof {
                let j = key_index(table@, id);
                if j != i {
                    assert(table@[j].0 == table@[i as int].0);
                }
                lemma_remove_entry(table@, id);
            }
            let entry = table.swap_remove(i);
            return Some(entry.1);
        }
        i = i + 1;
    }
    assert(!has_key(table@, id));
    None
}

/// Removes and returns the router entry matching `goal`, or returns `None`
/// and leaves the table untouched when no entry matches.
pub fn resolve_goal<V>(table: &mut Vec<(GoalId, V)>, goal: GoalId) -> (r: Option<V>)
    requires
        distinct_keys(old(table)@),
    ensures
        final(table)@ == remove_entry(old(table)@, goal),
        distinct_keys(final(table)@),
        has_key(old(table)@, goal) ==> r == Some(value_of(old(table)@, goal)),
        !has_key(old(table)@, goal) ==> r is None && final(table)@ == old(table)@,
    {
    let n = table.len();
    let mut i: usize = 0;
    while i < n
        invariant
            n == table@.len(),
            0 <= i <= n,
            table@ == old(table)@,
            distinct_keys(table@),
            forall|j: int| 0 <= j < i ==> table@[j].0 != goal,
        decreases n - i,
    {
        if table[i].0.val == goal.val {
            assert(table@[i as int].0 == goal);
            assert(has_key(table@, goal));
            proof {
                let j = key_index(table@, goal);
                if j != i {
                    assert(table@[j].0 == table@[i as int].0);
                }
                lemma_remove_entry(table@, goal);
            }
            let entry = table.swap_remove(i);
            return Some(entry.1);
        }
        i = i + 1;
    }
    assert(!has_key(table@, goal));
    None
}

} // verus!
