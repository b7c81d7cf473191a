//! The few places where composition leans on outside crates: the stable
//! priority sort and the insertion-ordered collections that deduplicate
//! channels and accumulate pypi requirements. Each call stands behind a
//! contract stated over this crate's views.

use vstd::prelude::*;

use itertools::Itertools;

use crate::keyed::append_entry;
use crate::manifest::{channels_view, ChannelView, PrioritizedChannel};

verus! {

/// Inserts `c` into a priority-descending sequence, after every element
/// whose priority is at least `c`'s, so equal priorities keep their
/// relative order.
pub open spec fn insert_desc(s: Seq<ChannelView>, c: ChannelView) -> Seq<ChannelView>
    decreases s.len(),
{
    if s.len() == 0 {
        seq![c]
    } else if s[0].prio() >= c.prio() {
        seq![s[0]] + insert_desc(s.drop_first(), c)
    } else {
        seq![c] + s
    }
}

/// The stable sort of `s` by priority descending: each element in turn is
/// inserted after the elements that sort no later than it. Elements of
/// equal priority keep their input order.
pub open spec fn stable_sort_desc(s: Seq<ChannelView>) -> Seq<ChannelView>
    decreases s.len(),
{
    if s.len() == 0 {
        Seq::empty()
    } else {
        insert_desc(stable_sort_desc(s.drop_last()), s.last())
    }
}

/// Priorities never increase along `s`.
pub open spec fn sorted_desc(s: Seq<ChannelView>) -> bool {
    forall|i: int, j: int| 0 <= i <= j < s.len() ==> s[i].prio() >= s[j].prio()
}

/// Inserting keeps the length and every priority bound.
proof fn lemma_insert_desc_len(s: Seq<ChannelView>, c: ChannelView)
    ensures
        insert_desc(s, c).len() == s.len() + 1,
    decreases s.len(),
{
    if s.len() > 0 && s[0].prio() >= c.prio() {
        lemma_insert_desc_len(s.drop_first(), c);
    }
}

/// Every element of the insertion result is bounded by any bound on the
/// input elements and the inserted one.
proof fn lemma_insert_desc_bound(s: Seq<ChannelView>, c: ChannelView, b: int)
    requires
        forall|i: int| 0 <= i < s.len() ==> (#[trigger] s[i]).prio() <= b,
        c.prio() <= b,
    ensures
        forall|k: int|
            0 <= k < insert_desc(s, c).len() ==> (#[trigger] insert_desc(s, c)[k]).prio() <= b,
    decreases s.len(),
{
    lemma_insert_desc_len(s, c);
    if s.len() == 0 {
        assert(insert_desc(s, c)[0] == c);
    } else if s[0].prio() >= c.prio() {
        assert(forall|i: int|
            0 <= i < s.drop_first().len() ==> (#[trigger] s.drop_first()[i]).prio() <= b);
        lemma_insert_desc_bound(s.drop_first(), c, b);
        let r = insert_desc(s, c);
        assert forall|k: int| 0 <= k < r.len() implies (#[trigger] r[k]).prio() <= b by {
            if k == 0 {
                assert(r[0] == s[0]);
            } else {
                assert(r[k] == insert_desc(s.drop_first(), c)[k - 1]);
            }
        }
    } else {
        let r = insert_desc(s, c);
        assert forall|k: int| 0 <= k < r.len() implies (#[trigger] r[k]).prio() <= b by {
            if k == 0 {
                assert(r[0] == c);
            } else {
                assert(r[k] == s[k - 1]);
            }
        }
    }
}

/// Inserting into a priority-descending sequence keeps it descending.
proof fn lemma_insert_desc_sorted(s: Seq<ChannelView>, c: ChannelView)
    requires
        sorted_desc(s),
    ensures
        sorted_desc(insert_desc(s, c)),
    decreases s.len(),
{
    lemma_insert_desc_len(s, c);
    if s.len() == 0 {
    } else if s[0].prio() >= c.prio() {
        assert(sorted_desc(s.drop_first()));
        lemma_insert_desc_sorted(s.drop_first(), c);
        assert(forall|i: int|
            0 <= i < s.drop_first().len() ==> (#[trigger] s.drop_first()[i]).prio() <= s[
                0
            ].prio());
        lemma_insert_desc_bound(s.drop_first(), c, s[0].prio());
        let r = insert_desc(s, c);
        let ins = insert_desc(s.drop_first(), c);
        assert forall|i: int, j: int| 0 <= i <= j < r.len() implies r[i].prio() >= r[j].prio() by {
            if i == 0 {
                if j > 0 {
                    assert(r[j] == ins[j - 1]);
                }
            } else {
                assert(r[i] == ins[i - 1]);
                assert(r[j] == ins[j - 1]);
            }
        }
    } else {
        let r = insert_desc(s, c);
        assert forall|i: int, j: int| 0 <= i <= j < r.len() implies r[i].prio() >= r[j].prio() by {
            if i == 0 {
                if j > 0 {
                    assert(r[j] == s[j - 1]);
                }
            } else {
                assert(r[i] == s[i - 1]);
                assert(r[j] == s[j - 1]);
            }
        }
    }
}

/// The sort specification really sorts: the result has the input's length
/// and its priorities descend, ties keeping input order by construction.
pub proof fn lemma_stable_sort_desc_sorted(s: Seq<ChannelView>)
    ensures
        stable_sort_desc(s).len() == s.len(),
        sorted_desc(stable_sort_desc(s)),
    decreases s.len(),
{
    if s.len() > 0 {
        lemma_stable_sort_desc_sorted(s.drop_last());
        lemma_insert_desc_len(stable_sort_desc(s.drop_last()), s.last());
        lemma_insert_desc_sorted(stable_sort_desc(s.drop_last()), s.last());
    }
}

/// Orders two channels for the priority sort: the one with the higher
/// declared priority (absent counting as zero) comes first.
pub fn channel_priority_order(a: &PrioritizedChannel, b: &PrioritizedChannel) -> (r:
    core::cmp::Ordering)
    ensures
        (r == core::cmp::Ordering::Less <==> b@.prio() < a@.prio()),
        (r == core::cmp::Ordering::Greater <==> a@.prio() < b@.prio()),
        (r == core::cmp::Ordering::Equal <==> a@.prio() == b@.prio()),
{
    let ap: i64 = match a.priority {
        Some(p) => p,
        None => 0,
    };
    let bp: i64 = match b.priority {
        Some(p) => p,
        None => 0,
    };
    if bp < ap {
        core::cmp::Ordering::Less
    } else if ap < bp {
        core::cmp::Ordering::Greater
    } else {
        core::cmp::Ordering::Equal
    }
}

/// Relies on itertools' `Itertools::sorted_by`, which sorts by the given
/// comparator with `slice::sort_by` and is documented as stable: elements
/// that compare equal keep their input order. With
/// [`channel_priority_order`] as the comparator the result is exactly
/// [`stable_sort_desc`] of the input.
#[verifier::external_body]
pub fn sort_channels_by_priority(v: Vec<PrioritizedChannel>) -> (r: Vec<PrioritizedChannel>)
    ensures
        channels_view(r@) == stable_sort_desc(channels_view(v@)),
{
    v.into_iter().sorted_by(|a, b| channel_priority_order(a, b)).collect()
}

#[verifier::external_type_specification]
#[verifier::external_body]
#[verifier::reject_recursive_types(T)]
#[verifier::reject_recursive_types(S)]
pub struct ExIndexSet<T, S>(indexmap::IndexSet<T, S>);

/// What an insertion-ordered string set holds, in insertion order.
pub uninterp spec fn index_set_elems(s: &indexmap::IndexSet<String>) -> Seq<Seq<char>>;

/// Relies on indexmap's `IndexSet::new`: the new set is empty.
#[verifier::external_body]
pub fn index_set_new() -> (r: indexmap::IndexSet<String>)
    ensures
        index_set_elems(&r) == Seq::<Seq<char>>::empty(),
{
    indexmap::IndexSet::new()
}

/// Relies on indexmap's `IndexSet::insert`: a value equal to a present one
/// leaves the set and its order unchanged; a new value is appended at the
/// end.
#[verifier::external_body]
pub fn index_set_insert(s: &mut indexmap::IndexSet<String>, v: String)
    ensures
        index_set_elems(final(s)) == if index_set_elems(old(s)).contains(v@) {
            index_set_elems(old(s))
        } else {
            index_set_elems(old(s)).push(v@)
        },
{
    s.insert(v);
}

#[verifier::external_type_specification]
#[verifier::external_body]
#[verifier::reject_recursive_types(K)]
#[verifier::reject_recursive_types(V)]
#[verifier::reject_recursive_types(S)]
pub struct ExIndexMap<K, V, S>(indexmap::IndexMap<K, V, S>);

/// What an insertion-ordered requirement map holds: each key with its list
/// of requirements, in insertion order.
pub uninterp spec fn index_map_entries(m: &indexmap::IndexMap<String, Vec<String>>) -> Seq<
    (Seq<char>, Seq<Seq<char>>),
>;

/// Relies on indexmap's `IndexMap::new`: the new map is empty.
#[verifier::external_body]
pub fn index_map_new() -> (r: indexmap::IndexMap<String, Vec<String>>)
    ensures
        index_map_entries(&r) == Seq::<(Seq<char>, Seq<Seq<char>>)>::empty(),
{
    indexmap::IndexMap::new()
}

/// Relies on indexmap's `IndexMap::entry` and `Entry::or_default`, and
/// `Vec::push`: an existing key keeps its position and gets `v` appended to
/// its list; a new key is appended at the end with the one-element list.
#[verifier::external_body]
pub fn index_map_push(m: &mut indexmap::IndexMap<String, Vec<String>>, k: String, v: String)
    ensures
        index_map_entries(final(m)) == append_entry(index_map_entries(old(m)), k@, v@),
{
    m.entry(k).or_default().push(v);
}

} // verus!
