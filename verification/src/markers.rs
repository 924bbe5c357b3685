//! The marker engine: named boolean context flags with stack-scoped lifetime.
//!
//! The marker table is a stack of named entries. Reading a name yields the
//! value of its topmost entry, or `false` if the name is absent. Declaring a
//! marker pushes a fresh entry (initially `false`) that shadows outer entries
//! of the same name until it is retracted. Overriding a marker (`set`) changes
//! the topmost entry of that name, or pushes one if the name is absent, and
//! returns the previous value (`None` when absent) so that a failed parse
//! attempt can restore it; restoring an absent previous value removes the
//! entry that the override pushed, so one override followed by its restoration
//! leaves the table exactly as it was.

use vstd::prelude::*;

verus! {

/// One entry of the marker table.
pub struct MarkerEntry {
    pub name: String,
    pub value: bool,
}

/// The mathematical model of the marker table: a stack of (name, value) pairs.
pub type MarkerSeq = Seq<(Seq<char>, bool)>;

/// The view of an executable marker table.
pub open spec fn markers_view(v: Seq<MarkerEntry>) -> MarkerSeq {
    v.map(|i: int, e: MarkerEntry| (e.name@, e.value))
}

/// The index of the topmost entry named `name`, or -1 if the name is absent.
pub open spec fn marker_top(m: MarkerSeq, name: Seq<char>) -> int
    decreases m.len(),
{
    if m.len() == 0 {
        -1
    } else if m.last().0 == name {
        m.len() - 1
    } else {
        marker_top(m.drop_last(), name)
    }
}

/// The current value of a marker: the topmost entry's value, or `false` if the
/// name was never declared or set.
pub open spec fn marker_get(m: MarkerSeq, name: Seq<char>) -> bool {
    let i = marker_top(m, name);
    if i >= 0 {
        m[i].1
    } else {
        false
    }
}

/// The previous value an override must later restore: the topmost entry's
/// value, or `None` when the name is absent.
pub open spec fn marker_prev(m: MarkerSeq, name: Seq<char>) -> Option<bool> {
    let i = marker_top(m, name);
    if i >= 0 {
        Some(m[i].1)
    } else {
        None
    }
}

/// The table after an override: the topmost entry named `name` takes `value`,
/// or a new entry is pushed when the name is absent.
pub open spec fn marker_set(m: MarkerSeq, name: Seq<char>, value: bool) -> MarkerSeq {
    let i = marker_top(m, name);
    if i >= 0 {
        m.update(i, (name, value))
    } else {
        m.push((name, value))
    }
}

/// The table after restoring a previous value: `Some(v)` writes `v` back into
/// the topmost entry of that name; `None` removes that entry (the override had
/// pushed it).
pub open spec fn marker_restore(m: MarkerSeq, name: Seq<char>, prev: Option<bool>) -> MarkerSeq {
    match prev {
        Some(v) => marker_set(m, name, v),
        None => {
            let i = marker_top(m, name);
            if i >= 0 {
                m.remove(i)
            } else {
                m
            }
        },
    }
}

/// `marker_top` always names a real entry of the right name.
pub proof fn lemma_marker_top_bounds(m: MarkerSeq, name: Seq<char>)
    ensures
        -1 <= marker_top(m, name) < m.len(),
        marker_top(m, name) >= 0 ==> m[marker_top(m, name)].0 == name,
        marker_top(m, name) == -1 ==> forall|j: int| 0 <= j < m.len() ==> m[j].0 != name,
    decreases m.len(),
{
    if m.len() > 0 && m.last().0 != name {
        lemma_marker_top_bounds(m.drop_last(), name);
        assert(forall|j: int| 0 <= j < m.len() - 1 ==> m[j] == m.drop_last()[j]);
    }
}

/// Updating an entry without changing its name leaves `marker_top` unchanged,
/// for every name.
pub proof fn lemma_marker_top_update(m: MarkerSeq, i: int, e: (Seq<char>, bool), name: Seq<char>)
    requires
        0 <= i < m.len(),
        m[i].0 == e.0,
    ensures
        marker_top(m.update(i, e), name) == marker_top(m, name),
    decreases m.len(),
{
    let mu = m.update(i, e);
    if m.len() > 0 {
        if i == m.len() - 1 {
            if m.last().0 != name {
                assert(mu.drop_last() =~= m.drop_last());
            }
        } else {
            assert(mu.last() == m.last());
            if m.last().0 != name {
                assert(mu.drop_last() =~= m.drop_last().update(i, e));
                lemma_marker_top_update(m.drop_last(), i, e, name);
            }
        }
    }
}

/// When no entry at or above position `i` is named `name`, the topmost entry
/// of that name (if any) lies below `i`.
pub proof fn lemma_marker_top_below(m: MarkerSeq, name: Seq<char>, i: int)
    requires
        0 <= i <= m.len(),
        forall|j: int| i <= j < m.len() ==> m[j].0 != name,
    ensures
        marker_top(m, name) < i,
    decreases m.len(),
{
    if m.len() > 0 && i < m.len() {
        assert(m.last().0 != name);
        lemma_marker_top_below(m.drop_last(), name, i);
    } else {
        lemma_marker_top_bounds(m, name);
    }
}

/// The topmost entry named `name` is the highest position holding that name.
pub proof fn lemma_marker_top_at(m: MarkerSeq, name: Seq<char>, i: int)
    requires
        0 <= i < m.len(),
        m[i].0 == name,
        forall|j: int| i < j < m.len() ==> m[j].0 != name,
    ensures
        marker_top(m, name) == i,
    decreases m.len(),
{
    if i == m.len() - 1 {
        assert(m.last().0 == name);
    } else {
        assert(m.last().0 != name);
        lemma_marker_top_at(m.drop_last(), name, i);
    }
}

/// One marker override, followed by restoration of the previous value it
/// returned, leaves the marker table exactly as it was. This is the engine-level
/// guarantee behind restoring a failed parse attempt's overrides in reverse
/// order of establishment.
pub proof fn lemma_marker_override_roundtrip(m: MarkerSeq, name: Seq<char>, value: bool)
    ensures
        marker_restore(marker_set(m, name, value), name, marker_prev(m, name)) == m,
{
    lemma_marker_top_bounds(m, name);
    let i = marker_top(m, name);
    if i >= 0 {
        let ms = m.update(i, (name, value));
        lemma_marker_top_update(m, i, (name, value), name);
        assert(marker_top(ms, name) == i);
        assert(ms.update(i, (name, m[i].1)) =~= m);
    } else {
        let ms = m.push((name, value));
        assert(ms.last().0 == name);
        assert(marker_top(ms, name) == ms.len() - 1);
        assert(ms.remove(ms.len() - 1) =~= m);
    }
}

} // verus!
