//! A set of node ids kept in a vector: each id at most once, in the order of
//! first insertion.
use vstd::prelude::*;

verus! {

/// `s` with `id` added at the end unless it is already there.
pub open spec fn with_id(s: Seq<usize>, id: usize) -> Seq<usize> {
    if s.contains(id) {
        s
    } else {
        s.push(id)
    }
}

/// The set with `id` added holds `id` and what the set held.
pub proof fn lemma_with_id_contains(s: Seq<usize>, id: usize)
    ensures
        forall|v: usize| #[trigger] with_id(s, id).contains(v) <==> s.contains(v) || v == id,
{
    assert forall|v: usize| #[trigger] with_id(s, id).contains(v) <==> s.contains(v) || v == id by {
        if !s.contains(id) {
            let s1 = s.push(id);
            assert(s1[s.len() as int] == id);
            if s1.contains(v) && v != id {
                let k = choose|k: int| 0 <= k < s1.len() && s1[k] == v;
                assert(s[k] == v);
            }
            if s.contains(v) {
                let k = choose|k: int| 0 <= k < s.len() && s[k] == v;
                assert(s1[k] == v);
            }
        }
    }
}

/// Adds `id` to the set `set` (once).
pub fn insert_id(set: &mut Vec<usize>, id: usize)
    ensures
        final(set)@ == with_id(old(set)@, id),
        old(set)@.no_duplicates() ==> final(set)@.no_duplicates(),
{
    let mut i: usize = 0;
    while i < set.len()
        invariant
            set@ == old(set)@,
            i <= set@.len(),
            forall|k: int| 0 <= k < i ==> set@[k] != id,
        decreases set@.len() - i,
    {
        if set[i] == id {
            return ;
        }
        i = i + 1;
    }
    set.push(id);
    proof {
        let d0 = old(set)@;
        assert(!d0.contains(id));
        if d0.no_duplicates() {
            assert forall|a: int, b: int| 0 <= a < b < set@.len() implies set@[a] != set@[b] by {
                if b == d0.len() {
                    assert(d0[a] != id);
                }
            }
        }
    }
}

} // verus!
