//! The caches of request editors: editors kept per request, with the order
//! they were cached in, the oldest dropped once a cache grows past its cap.
use vstd::prelude::*;
use std::collections::HashMap;

verus! {

broadcast use vstd::std_specs::hash::group_hash_axioms;

/// How many body editors are kept.
pub const BODY_EDITOR_CACHE_CAP: usize = 32;

/// How many URL editors are kept.
pub const URL_EDITOR_CACHE_CAP: usize = 32;

/// The cache and order after caching `editor` for `request_id`: the editor
/// is stored under the request and the request goes to the end of the
/// order; when the cache then holds more than `cap` editors, the request
/// first in the order leaves both.
pub open spec fn cached<V>(
    cache: Map<u128, V>,
    order: Seq<u128>,
    cap: usize,
    request_id: u128,
    editor: V,
) -> (Map<u128, V>, Seq<u128>) {
    let c = cache.insert(request_id, editor);
    let o = order.push(request_id);
    if c.len() > cap {
        (c.remove(o[0]), o.drop_first())
    } else {
        (c, o)
    }
}

/// Caches `editor` for `request_id` (see `cached`).
pub fn insert_editor_cache_entry<V>(
    cache: &mut HashMap<u128, V>,
    order: &mut Vec<u128>,
    cap: usize,
    request_id: u128,
    editor: V,
)
    ensures
        (final(cache)@, final(order)@) == cached(old(cache)@, old(order)@, cap, request_id, editor),
{
    cache.insert(request_id, editor);
    order.push(request_id);
    if cache.len() > cap {
        let oldest = order[0];
        cache.remove(&oldest);
        order.remove(0);
    }
}

/// Drops the editor cached for a deleted request: it leaves the cache, and
/// the request leaves the order wherever it stands.
pub fn remove_editor_cache_entry<V>(
    cache: &mut HashMap<u128, V>,
    order: &mut Vec<u128>,
    request_id: u128,
)
    ensures
        final(cache)@ == old(cache)@.remove(request_id),
        final(order)@ == old(order)@.filter(|id: u128| id != request_id),
{
    cache.remove(&request_id);
    let mut kept: Vec<u128> = Vec::new();
    let mut i: usize = 0;
    while i < order.len()
        invariant
            i <= order@.len(),
            kept@ == order@.take(i as int).filter(|id: u128| id != request_id),
        decreases order@.len() - i,
    {
        proof {
            let s = order@.take(i + 1);
            assert(s =~= order@.take(i as int).push(order@[i as int]));
            assert(s.drop_last() =~= order@.take(i as int));
            reveal(Seq::filter);
        }
        if order[i] != request_id {
            kept.push(order[i]);
        }
        i = i + 1;
    }
    assert(order@.take(order@.len() as int) =~= order@);
    *order = kept;
}

/// The order lists exactly the cached requests, each once.
pub open spec fn order_tracks<V>(cache: Map<u128, V>, order: Seq<u128>) -> bool {
    &&& order.no_duplicates()
    &&& forall|id: u128| cache.contains_key(id) <==> order.contains(id)
}

/// A cache whose order lists exactly its requests stays within its cap
/// when a request not yet cached is added, and its order still lists
/// exactly its requests.
pub proof fn lemma_cache_stays_within_cap<V>(
    cache: Map<u128, V>,
    order: Seq<u128>,
    cap: usize,
    request_id: u128,
    editor: V,
)
    requires
        cache.dom().finite(),
        order_tracks(cache, order),
        cache.len() <= cap,
        !cache.contains_key(request_id),
    ensures
        ({
            let (c, o) = cached(cache, order, cap, request_id, editor);
            &&& c.len() <= cap
            &&& order_tracks(c, o)
            &&& c.contains_key(request_id) || cap == 0
        }),
{
    let c = cache.insert(request_id, editor);
    let o = order.push(request_id);
    assert(c.len() == cache.len() + 1);
    assert(!order.contains(request_id));
    assert(o.no_duplicates()) by {
        assert forall|i: int, j: int| 0 <= i < o.len() && 0 <= j < o.len() && i != j implies o[i]
            != o[j] by {
            if i == order.len() as int {
                assert(order[j] == o[j]);
            } else if j == order.len() as int {
                assert(order[i] == o[i]);
            } else {
                assert(order[i] == o[i]);
                assert(order[j] == o[j]);
            }
        }
    }
    assert forall|id: u128| o.contains(id) implies c.contains_key(id) by {
        let k = choose|k: int| 0 <= k < o.len() && o[k] == id;
        if k < order.len() {
            assert(order[k] == id);
            assert(order.contains(id));
        }
    }
    assert forall|id: u128| c.contains_key(id) implies o.contains(id) by {
        if id == request_id {
            assert(o[order.len() as int] == id);
        } else {
            assert(cache.contains_key(id));
            assert(order.contains(id));
            let k = choose|k: int| 0 <= k < order.len() && order[k] == id;
            assert(o[k] == id);
        }
    }
    if c.len() > cap {
        let oldest = o[0];
        assert(o.contains(oldest));
        assert(c.contains_key(oldest));
        let c2 = c.remove(oldest);
        let o2 = o.drop_first();
        assert(c2.len() == c.len() - 1);
        assert forall|id: u128| o2.contains(id) implies c2.contains_key(id) by {
            let k = choose|k: int| 0 <= k < o2.len() && o2[k] == id;
            assert(o[k + 1] == id);
            assert(o.contains(id));
            assert(o[0] != o[k + 1]);
        }
        assert forall|id: u128| c2.contains_key(id) implies o2.contains(id) by {
            assert(c.contains_key(id));
            assert(o.contains(id));
            let k = choose|k: int| 0 <= k < o.len() && o[k] == id;
            assert(k != 0);
            assert(o2[k - 1] == id);
        }
        assert(o2.no_duplicates()) by {
            assert forall|i: int, j: int| 0 <= i < o2.len() && 0 <= j < o2.len() && i != j implies o2[i]
                != o2[j] by {
                assert(o2[i] == o[i + 1]);
                assert(o2[j] == o[j + 1]);
            }
        }
        if request_id == oldest {
            assert(o[order.len() as int] == request_id);
            assert(order.len() == 0);
            assert(cache.len() == 0) by {
                if cache.len() > 0 {
                    let x = cache.dom().choose();
                    assert(cache.contains_key(x));
                    assert(order.contains(x));
                }
            }
        }
    }
}

proof fn lemma_filter_keeps_distinct(s: Seq<u128>, request_id: u128)
    requires
        s.no_duplicates(),
    ensures
        s.filter(|id: u128| id != request_id).no_duplicates(),
    decreases s.len(),
{
    let p = |id: u128| id != request_id;
    if s.len() > 0 {
        let t = s.drop_last();
        assert(t.no_duplicates()) by {
            assert forall|i: int, j: int| 0 <= i < t.len() && 0 <= j < t.len() && i != j implies t[i]
                != t[j] by {
                assert(t[i] == s[i] && t[j] == s[j]);
            }
        }
        lemma_filter_keeps_distinct(t, request_id);
        assert(s =~= t.push(s.last()));
        t.lemma_filter_push(s.last(), p);
        t.filter_lemma(p);
        let x = s.last();
        assert(!t.contains(x)) by {
            if t.contains(x) {
                let k = choose|k: int| 0 <= k < t.len() && t[k] == x;
                assert(s[k] == s[s.len() - 1]);
            }
        }
        if p(x) {
            let f = t.filter(p);
            let g = f.push(x);
            assert(!f.contains(x)) by {
                if f.contains(x) {
                    t.lemma_filter_contains_rev(p, x);
                }
            }
            assert forall|i: int, j: int| 0 <= i < g.len() && 0 <= j < g.len() && i != j implies g[i]
                != g[j] by {
                if i == f.len() as int {
                    assert(g[j] == f[j]);
                    assert(f.contains(f[j]));
                } else if j == f.len() as int {
                    assert(g[i] == f[i]);
                    assert(f.contains(f[i]));
                } else {
                    assert(g[i] == f[i] && g[j] == f[j]);
                }
            }
        }
    }
}

/// Dropping a deleted request's editor keeps the order listing exactly the
/// cached requests, each once, and leaves no editor for that request.
pub proof fn lemma_removal_keeps_order_tracking<V>(
    cache: Map<u128, V>,
    order: Seq<u128>,
    request_id: u128,
)
    requires
        order_tracks(cache, order),
    ensures
        order_tracks(cache.remove(request_id), order.filter(|id: u128| id != request_id)),
        !cache.remove(request_id).contains_key(request_id),
{
    let p = |id: u128| id != request_id;
    lemma_filter_keeps_distinct(order, request_id);
    order.filter_lemma(p);
    let o = order.filter(p);
    let c = cache.remove(request_id);
    assert forall|id: u128| c.contains_key(id) <==> o.contains(id) by {
        if c.contains_key(id) {
            assert(order.contains(id));
            let k = choose|k: int| 0 <= k < order.len() && order[k] == id;
            order.lemma_filter_contains(p, k);
        }
        if o.contains(id) {
            order.lemma_filter_contains_rev(p, id);
            let k = choose|k: int| 0 <= k < o.len() && o[k] == id;
            assert(p(o[k]));
        }
    }
}

} // verus!
