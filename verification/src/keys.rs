//! Sorted key lists and stable sorting, executable.
use vstd::prelude::*;

use crate::order::arranged;
use crate::order::opt_view;
use crate::order::placed;
use crate::order::rank;
use crate::order::sorted_keys;
use crate::order::strictly_sorted;
use crate::order::views;
use crate::order::with_key;
use crate::text::less;
use crate::text::same;

verus! {

/// The index at which `k` stands, or belongs, in the sorted list `keys`.
pub fn text_rank(keys: &Vec<String>, k: &str) -> (r: usize)
    requires
        strictly_sorted(views(keys@)),
    ensures
        r == rank(views(keys@), k@),
        r <= keys@.len(),
{
    let ghost all = views(keys@);
    let mut n: usize = keys.len();
    assert(all.take(n as int) =~= all);
    while n > 0 && !less(keys[n - 1].as_str(), k)
        invariant
            n <= keys@.len(),
            all == views(keys@),
            rank(all, k@) == rank(all.take(n as int), k@),
        decreases n,
    {
        proof {
            crate::order::lemma_take_step(all, n - 1);
        }
        n = n - 1;
    }
    proof {
        if n > 0 {
            assert(all.take(n as int).last() == all[n - 1]);
        }
    }
    n
}

/// Whether the list holds `k`.
pub fn has_text(keys: &Vec<String>, k: &str) -> (r: bool)
    ensures
        r == views(keys@).contains(k@),
{
    let mut i: usize = 0;
    while i < keys.len()
        invariant
            i <= keys@.len(),
            forall|j: int| 0 <= j < i ==> (#[trigger] keys@[j])@ != k@,
        decreases keys@.len() - i,
    {
        if same(keys[i].as_str(), k) {
            assert(views(keys@)[i as int] == k@);
            return true;
        }
        i = i + 1;
    }
    proof {
        if views(keys@).contains(k@) {
            let j = choose|j: int| 0 <= j < views(keys@).len() && views(keys@)[j] == k@;
            assert(keys@[j]@ == k@);
        }
    }
    false
}

/// Puts `k` in its place in the sorted list, unless it is there.
pub fn add_text(keys: &mut Vec<String>, k: String)
    requires
        strictly_sorted(views(old(keys)@)),
    ensures
        views(final(keys)@) == with_key(views(old(keys)@), k@),
        strictly_sorted(views(final(keys)@)),
{
    let ghost all = views(keys@);
    let at: usize = text_rank(keys, k.as_str());
    proof {
        crate::order::lemma_rank(all, k@);
        crate::order::lemma_with_key(all, k@);
    }
    if at < keys.len() && same(keys[at].as_str(), k.as_str()) {
        assert(all[at as int] == k@);
    } else {
        keys.insert(at, k);
        assert(views(keys@) =~= all.insert(at as int, k@));
    }
}

/// The distinct texts of a list, in text order.
pub fn sorted_texts(v: &Vec<String>) -> (r: Vec<String>)
    ensures
        views(r@) == sorted_keys(views(v@)),
{
    let ghost all = views(v@);
    let mut r: Vec<String> = Vec::new();
    let mut i: usize = 0;
    assert(all.take(0) =~= Seq::<Seq<char>>::empty());
    assert(views(r@) =~= Seq::<Seq<char>>::empty());
    while i < v.len()
        invariant
            i <= v@.len(),
            all == views(v@),
            views(r@) == sorted_keys(all.take(i as int)),
            strictly_sorted(views(r@)),
        decreases v@.len() - i,
    {
        proof {
            crate::order::lemma_take_step(all, i as int);
        }
        add_text(&mut r, v[i].clone());
        i = i + 1;
    }
    assert(all.take(i as int) =~= all);
    r
}

/// Whether the first pair comes before the second.
pub fn pair_less(a: &(String, String), b: &(String, String)) -> (r: bool)
    ensures
        r == crate::order::KeyOrder::precedes(a@, b@),
{
    less(a.0.as_str(), b.0.as_str()) || (same(a.0.as_str(), b.0.as_str()) && less(
        a.1.as_str(),
        b.1.as_str(),
    ))
}

/// The distinct pairs of a list, in key order.
pub fn sorted_pairs(v: &Vec<(String, String)>) -> (r: Vec<(String, String)>)
    ensures
        views(r@) == sorted_keys(views(v@)),
{
    let ghost all = views(v@);
    let mut r: Vec<(String, String)> = Vec::new();
    let mut i: usize = 0;
    assert(all.take(0) =~= Seq::<(Seq<char>, Seq<char>)>::empty());
    assert(views(r@) =~= Seq::<(Seq<char>, Seq<char>)>::empty());
    while i < v.len()
        invariant
            i <= v@.len(),
            all == views(v@),
            views(r@) == sorted_keys(all.take(i as int)),
            strictly_sorted(views(r@)),
        decreases v@.len() - i,
    {
        proof {
            crate::order::lemma_take_step(all, i as int);
        }
        let ghost was = views(r@);
        let ghost k = all[i as int];
        let mut n: usize = r.len();
        assert(was.take(n as int) =~= was);
        while n > 0 && !pair_less(&r[n - 1], &v[i])
            invariant
                n <= r@.len(),
                i < v@.len(),
                was == views(r@),
                k == v@[i as int]@,
                rank(was, k) == rank(was.take(n as int), k),
            decreases n,
        {
            proof {
                crate::order::lemma_take_step(was, n - 1);
            }
            n = n - 1;
        }
        proof {
            if n > 0 {
                assert(was.take(n as int).last() == was[n - 1]);
            }
            crate::order::lemma_rank(was, k);
            crate::order::lemma_with_key(was, k);
        }
        if n < r.len() && same(r[n].0.as_str(), v[i].0.as_str()) && same(
            r[n].1.as_str(),
            v[i].1.as_str(),
        ) {
            assert(was[n as int] == k);
        } else {
            proof {
                if n < r@.len() {
                    assert(was[n as int] == r@[n as int]@);
                    assert(was[n as int] != k);
                }
            }
            r.insert(n, (v[i].0.clone(), v[i].1.clone()));
            assert(views(r@) =~= was.insert(n as int, k));
        }
        i = i + 1;
    }
    assert(all.take(i as int) =~= all);
    r
}

/// The items arranged by `before`, which decides as `order` says.
pub fn arrange<T, F: Fn(&T, &T) -> bool>(
    items: Vec<T>,
    before: F,
    Ghost(order): Ghost<spec_fn(T, T) -> bool>,
) -> (r: Vec<T>)
    requires
        forall|a: &T, b: &T| #[trigger] call_requires(before, (a, b)),
        forall|a: &T, b: &T, d: bool| #[trigger]
            call_ensures(before, (a, b), d) ==> d == order(*a, *b),
    ensures
        r@ == arranged(items@, order),
{
    let ghost all = items@;
    let mut rest = items;
    let mut out: Vec<T> = Vec::new();
    let ghost mut done: int = 0;
    assert(all.take(0) =~= Seq::<T>::empty());
    assert(all.skip(0) =~= all);
    while rest.len() > 0
        invariant
            0 <= done <= all.len(),
            rest@ == all.skip(done),
            out@ == arranged(all.take(done), order),
            forall|a: &T, b: &T| #[trigger] call_requires(before, (a, b)),
            forall|a: &T, b: &T, d: bool| #[trigger]
                call_ensures(before, (a, b), d) ==> d == order(*a, *b),
        decreases rest@.len(),
    {
        let x = rest.remove(0);
        proof {
            crate::order::lemma_take_step(all, done);
            assert(x == all[done]);
            assert(rest@ =~= all.skip(done + 1));
        }
        let mut at: usize = out.len();
        while at > 0 && before(&x, &out[at - 1])
            invariant
                at <= out@.len(),
                forall|i: int| at <= i < out@.len() ==> order(x, #[trigger] out@[i]),
                forall|a: &T, b: &T| #[trigger] call_requires(before, (a, b)),
                forall|a: &T, b: &T, d: bool| #[trigger]
                    call_ensures(before, (a, b), d) ==> d == order(*a, *b),
            ensures
                at <= out@.len(),
                forall|i: int| at <= i < out@.len() ==> order(x, #[trigger] out@[i]),
                at == 0 || !order(x, out@[at - 1]),
            decreases at,
        {
            at = at - 1;
        }
        proof {
            crate::order::lemma_placed_insert(out@, x, order, at as int);
            done = done + 1;
        }
        out.insert(at, x);
    }
    assert(all.take(done) =~= all);
    out
}

proof fn lemma_placed_views<T: View>(
    t: Seq<T>,
    x: T,
    order: spec_fn(T, T) -> bool,
    on_views: spec_fn(T::V, T::V) -> bool,
)
    requires
        forall|a: T, b: T| #[trigger] order(a, b) == on_views(a@, b@),
    ensures
        views(placed(t, x, order)) == placed(views(t), x@, on_views),
    decreases t.len(),
{
    if t.len() > 0 && order(x, t.last()) {
        lemma_placed_views(t.drop_last(), x, order, on_views);
        assert(views(t.drop_last()) =~= views(t).drop_last());
        assert(views(placed(t, x, order)) =~= views(placed(t.drop_last(), x, order)).push(
            t.last()@,
        ));
    } else {
        if t.len() > 0 {
            assert(order(x, t.last()) == on_views(x@, t.last()@));
        }
        assert(views(t.push(x)) =~= views(t).push(x@));
    }
}

/// Arranging values arranges their views.
pub proof fn lemma_arranged_views<T: View>(
    s: Seq<T>,
    order: spec_fn(T, T) -> bool,
    on_views: spec_fn(T::V, T::V) -> bool,
)
    requires
        forall|a: T, b: T| #[trigger] order(a, b) == on_views(a@, b@),
    ensures
        views(arranged(s, order)) == arranged(views(s), on_views),
    decreases s.len(),
{
    if s.len() > 0 {
        lemma_arranged_views(s.drop_last(), order, on_views);
        assert(views(s.drop_last()) =~= views(s).drop_last());
        lemma_placed_views(arranged(s.drop_last(), order), s.last(), order, on_views);
    } else {
        assert(views(arranged(s, order)) =~= arranged(views(s), on_views));
    }
}

/// What a list of pairs has under a key: the first that names it.
pub open spec fn listed(pairs: Seq<(Seq<char>, Seq<char>)>, key: Seq<char>) -> Option<Seq<char>>
    decreases pairs.len(),
{
    if pairs.len() == 0 {
        None
    } else if pairs[0].0 == key {
        Some(pairs[0].1)
    } else {
        listed(pairs.drop_first(), key)
    }
}

/// What a list of pairs has under a key.
pub fn find_listed(pairs: &Vec<(String, String)>, key: &str) -> (r: Option<String>)
    ensures
        opt_view(r) == listed(views(pairs@), key@),
{
    let ghost all = views(pairs@);
    let mut i: usize = 0;
    assert(all.skip(0) =~= all);
    while i < pairs.len()
        invariant
            i <= pairs@.len(),
            all == views(pairs@),
            listed(all, key@) == listed(all.skip(i as int), key@),
        decreases pairs@.len() - i,
    {
        assert(all.skip(i as int)[0] == pairs@[i as int]@);
        assert(all.skip(i as int).drop_first() =~= all.skip(i + 1));
        if same(pairs[i].0.as_str(), key) {
            return Some(pairs[i].1.clone());
        }
        i = i + 1;
    }
    None
}

} // verus!
