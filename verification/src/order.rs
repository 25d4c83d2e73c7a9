//! Orders on keys, sorted key lists, and stable arrangement of sequences.
//!
//! A grouping in this crate walks its groups in key order. The order of text is
//! the order of its code points, position by position, and a pair is ordered by
//! its first part, then by its second.
use vstd::prelude::*;

verus! {

/// The views of the elements of a sequence.
pub open spec fn views<T: View>(s: Seq<T>) -> Seq<T::V> {
    Seq::new(s.len(), |i: int| s[i]@)
}

/// The view of an optional value.
pub open spec fn opt_view<T: View>(o: Option<T>) -> Option<T::V> {
    match o {
        Some(x) => Some(x@),
        None => None,
    }
}

/// The elements of `s` that satisfy `keeps`, in order.
pub open spec fn keep<A>(s: Seq<A>, keeps: spec_fn(A) -> bool) -> Seq<A>
    decreases s.len(),
{
    if s.len() == 0 {
        Seq::empty()
    } else {
        let rest = keep(s.drop_last(), keeps);
        if keeps(s.last()) {
            rest.push(s.last())
        } else {
            rest
        }
    }
}

/// The first `n + 1` elements are the first `n` and one more.
pub proof fn lemma_take_step<A>(s: Seq<A>, n: int)
    requires
        0 <= n < s.len(),
    ensures
        s.take(n + 1).drop_last() =~= s.take(n),
        s.take(n + 1).last() == s[n],
        s.take(n + 1) =~= s.take(n).push(s[n]),
        s.take(n + 1).len() == n + 1,
{
}

/// What `keep` holds: only elements of `s` that satisfy `keeps`, and all of them.
pub proof fn lemma_keep<A>(s: Seq<A>, keeps: spec_fn(A) -> bool)
    ensures
        keep(s, keeps).len() <= s.len(),
        forall|i: int| 0 <= i < keep(s, keeps).len() ==> keeps(#[trigger] keep(s, keeps)[i]) && s.contains(
            keep(s, keeps)[i],
        ),
        forall|i: int|
            0 <= i < s.len() && keeps(s[i]) ==> keep(s, keeps).contains(#[trigger] s[i]),
    decreases s.len(),
{
    if s.len() > 0 {
        let front = s.drop_last();
        lemma_keep(front, keeps);
        let rest = keep(front, keeps);
        let whole = keep(s, keeps);
        assert forall|i: int| 0 <= i < whole.len() implies keeps(#[trigger] whole[i])
            && s.contains(whole[i]) by {
            if i < rest.len() {
                assert(keeps(rest[i]) && front.contains(rest[i]));
                let j = choose|j: int| 0 <= j < front.len() && front[j] == rest[i];
                assert(s[j] == whole[i]);
            } else {
                assert(whole[i] == s[s.len() - 1]);
            }
        }
        assert forall|i: int| 0 <= i < s.len() && keeps(s[i]) implies whole.contains(
            #[trigger] s[i],
        ) by {
            if i < front.len() {
                assert(front[i] == s[i]);
                let j = choose|j: int| 0 <= j < rest.len() && rest[j] == s[i];
                assert(whole[j] == s[i]);
            } else {
                assert(whole[whole.len() - 1] == s[i]);
            }
        }
    }
}

/// A strict total order on keys.
pub trait KeyOrder: Sized {
    /// `self` comes before `other`.
    spec fn precedes(self, other: Self) -> bool;

    /// No key comes before itself.
    proof fn irreflexive(a: Self)
        ensures
            !a.precedes(a),
    ;

    /// What comes before a key comes before all that follow it.
    proof fn transitive(a: Self, b: Self, c: Self)
        requires
            a.precedes(b),
            b.precedes(c),
        ensures
            a.precedes(c),
    ;

    /// Two keys are equal, or one comes before the other.
    proof fn total(a: Self, b: Self)
        ensures
            a.precedes(b) || b.precedes(a) || a == b,
    ;
}

/// Text order: at the first position where the two differ, the smaller code
/// point comes first; a proper prefix comes before what it begins.
pub open spec fn text_lt(a: Seq<char>, b: Seq<char>) -> bool
    decreases a.len(),
{
    if b.len() == 0 {
        false
    } else if a.len() == 0 {
        true
    } else if a[0] != b[0] {
        (a[0] as int) < (b[0] as int)
    } else {
        text_lt(a.drop_first(), b.drop_first())
    }
}

proof fn lemma_text_irreflexive(a: Seq<char>)
    ensures
        !text_lt(a, a),
    decreases a.len(),
{
    if a.len() > 0 {
        lemma_text_irreflexive(a.drop_first());
    }
}

proof fn lemma_text_transitive(a: Seq<char>, b: Seq<char>, c: Seq<char>)
    requires
        text_lt(a, b),
        text_lt(b, c),
    ensures
        text_lt(a, c),
    decreases a.len(),
{
    if a.len() > 0 && a[0] == b[0] && b[0] == c[0] {
        lemma_text_transitive(a.drop_first(), b.drop_first(), c.drop_first());
    }
}

proof fn lemma_text_total(a: Seq<char>, b: Seq<char>)
    ensures
        text_lt(a, b) || text_lt(b, a) || a == b,
    decreases a.len(),
{
    if a.len() == 0 || b.len() == 0 {
        if a.len() == b.len() {
            assert(a =~= b);
        }
    } else if a[0] == b[0] {
        lemma_text_total(a.drop_first(), b.drop_first());
        if a.drop_first() == b.drop_first() {
            assert(a =~= seq![a[0]] + a.drop_first());
            assert(b =~= seq![b[0]] + b.drop_first());
        }
    }
}

impl KeyOrder for Seq<char> {
    open spec fn precedes(self, other: Self) -> bool {
        text_lt(self, other)
    }

    proof fn irreflexive(a: Self) {
        lemma_text_irreflexive(a);
    }

    proof fn transitive(a: Self, b: Self, c: Self) {
        lemma_text_transitive(a, b, c);
    }

    proof fn total(a: Self, b: Self) {
        lemma_text_total(a, b);
    }
}

impl KeyOrder for (Seq<char>, Seq<char>) {
    open spec fn precedes(self, other: Self) -> bool {
        text_lt(self.0, other.0) || (self.0 == other.0 && text_lt(self.1, other.1))
    }

    proof fn irreflexive(a: Self) {
        lemma_text_irreflexive(a.0);
        lemma_text_irreflexive(a.1);
    }

    proof fn transitive(a: Self, b: Self, c: Self) {
        if text_lt(a.0, b.0) && text_lt(b.0, c.0) {
            lemma_text_transitive(a.0, b.0, c.0);
        } else if a.0 == b.0 && b.0 == c.0 {
            lemma_text_transitive(a.1, b.1, c.1);
        }
    }

    proof fn total(a: Self, b: Self) {
        lemma_text_total(a.0, b.0);
        lemma_text_total(a.1, b.1);
    }
}

/// Every key comes before all the keys behind it.
pub open spec fn strictly_sorted<K: KeyOrder>(s: Seq<K>) -> bool {
    forall|i: int, j: int|
        #![trigger s[i], s[j]]
        0 <= i < j < s.len() ==> s[i].precedes(s[j])
}

/// How many keys of the sorted list `s` come before `k`.
pub open spec fn rank<K: KeyOrder>(s: Seq<K>, k: K) -> nat
    decreases s.len(),
{
    if s.len() == 0 {
        0
    } else if s.last().precedes(k) {
        s.len()
    } else {
        rank(s.drop_last(), k)
    }
}

/// The sorted list `s` with `k` put in its place, unless it is there.
pub open spec fn with_key<K: KeyOrder>(s: Seq<K>, k: K) -> Seq<K> {
    if s.contains(k) {
        s
    } else {
        s.insert(rank(s, k) as int, k)
    }
}

/// The distinct elements of `s`, in key order.
pub open spec fn sorted_keys<K: KeyOrder>(s: Seq<K>) -> Seq<K>
    decreases s.len(),
{
    if s.len() == 0 {
        Seq::empty()
    } else {
        with_key(sorted_keys(s.drop_last()), s.last())
    }
}

/// In a sorted list the keys below the rank come before `k`, the others do not,
/// and `k` itself, if it is there, stands at the rank.
pub proof fn lemma_rank<K: KeyOrder>(s: Seq<K>, k: K)
    requires
        strictly_sorted(s),
    ensures
        rank(s, k) <= s.len(),
        forall|i: int| 0 <= i < rank(s, k) ==> (#[trigger] s[i]).precedes(k),
        forall|i: int| rank(s, k) <= i < s.len() ==> !(#[trigger] s[i]).precedes(k),
        s.contains(k) <==> rank(s, k) < s.len() && s[rank(s, k) as int] == k,
    decreases s.len(),
{
    if s.len() > 0 {
        let front = s.drop_last();
        if s.last().precedes(k) {
            assert forall|i: int| 0 <= i < s.len() implies (#[trigger] s[i]).precedes(k) by {
                if i < s.len() - 1 {
                    assert(s[i].precedes(s[s.len() - 1]));
                    K::transitive(s[i], s.last(), k);
                }
            }
            if s.contains(k) {
                let i = choose|i: int| 0 <= i < s.len() && s[i] == k;
                K::irreflexive(k);
                assert(s[i].precedes(k));
            }
        } else {
            assert(strictly_sorted(front)) by {
                assert forall|i: int, j: int|
                    #![trigger front[i], front[j]]
                    0 <= i < j < front.len() implies front[i].precedes(front[j]) by {
                    assert(s[i].precedes(s[j]));
                }
            }
            lemma_rank(front, k);
            let r = rank(front, k);
            assert(rank(s, k) == r);
            assert forall|i: int| r <= i < s.len() implies !(#[trigger] s[i]).precedes(k) by {
                if i < front.len() {
                    assert(!front[i].precedes(k));
                }
            }
            assert forall|i: int| 0 <= i < r implies (#[trigger] s[i]).precedes(k) by {
                assert(front[i].precedes(k));
            }
            if s.contains(k) {
                let i = choose|i: int| 0 <= i < s.len() && s[i] == k;
                if i < front.len() {
                    assert(front[i] == k);
                    assert(front.contains(k));
                } else if r < front.len() {
                    assert(!front[r as int].precedes(k));
                    assert(s[r as int].precedes(s[i]));
                }
            }
        }
    }
}

/// Putting a key in its place keeps the list sorted and adds that key alone.
pub proof fn lemma_with_key<K: KeyOrder>(s: Seq<K>, k: K)
    requires
        strictly_sorted(s),
    ensures
        strictly_sorted(with_key(s, k)),
        forall|x: K| with_key(s, k).contains(x) <==> (s.contains(x) || x == k),
{
    lemma_rank(s, k);
    let r = rank(s, k) as int;
    let t = with_key(s, k);
    if !s.contains(k) {
        assert(t == s.insert(r, k));
        assert forall|i: int, j: int|
            #![trigger t[i], t[j]]
            0 <= i < j < t.len() implies t[i].precedes(t[j]) by {
            if j < r {
                assert(s[i].precedes(s[j]));
            } else if j == r {
                assert(s[i].precedes(k));
            } else if i == r {
                K::total(k, s[j - 1]);
                assert(!s[j - 1].precedes(k));
                assert(s.contains(s[j - 1]));
            } else if i < r {
                assert(s[i].precedes(s[j - 1]));
            } else {
                assert(s[i - 1].precedes(s[j - 1]));
            }
        }
        assert forall|x: K| t.contains(x) <==> (s.contains(x) || x == k) by {
            if t.contains(x) {
                let i = choose|i: int| 0 <= i < t.len() && t[i] == x;
                if i < r {
                    assert(s[i] == x);
                } else if i > r {
                    assert(s[i - 1] == x);
                }
            }
            if s.contains(x) {
                let i = choose|i: int| 0 <= i < s.len() && s[i] == x;
                if i < r {
                    assert(t[i] == x);
                } else {
                    assert(t[i + 1] == x);
                }
            }
            assert(t[r] == k);
        }
    }
}

/// `sorted_keys` is strictly sorted and holds exactly the elements of `s`.
pub proof fn lemma_sorted_keys<K: KeyOrder>(s: Seq<K>)
    ensures
        strictly_sorted(sorted_keys(s)),
        forall|x: K| sorted_keys(s).contains(x) <==> s.contains(x),
    decreases s.len(),
{
    if s.len() > 0 {
        let front = s.drop_last();
        lemma_sorted_keys(front);
        lemma_with_key(sorted_keys(front), s.last());
        assert forall|x: K| sorted_keys(s).contains(x) <==> s.contains(x) by {
            if s.contains(x) {
                let i = choose|i: int| 0 <= i < s.len() && s[i] == x;
                if i < front.len() {
                    assert(front[i] == x);
                }
            }
            if front.contains(x) {
                let i = choose|i: int| 0 <= i < front.len() && front[i] == x;
                assert(s[i] == x);
            }
            assert(s[s.len() - 1] == s.last());
        }
    }
}

/// `x` put into the arranged sequence `t`: behind every element that `x` does
/// not have to come before.
pub open spec fn placed<A>(t: Seq<A>, x: A, before: spec_fn(A, A) -> bool) -> Seq<A>
    decreases t.len(),
{
    if t.len() > 0 && before(x, t.last()) {
        placed(t.drop_last(), x, before).push(t.last())
    } else {
        t.push(x)
    }
}

/// `s` arranged by `before`; elements that neither way come before one another
/// keep their order.
pub open spec fn arranged<A>(s: Seq<A>, before: spec_fn(A, A) -> bool) -> Seq<A>
    decreases s.len(),
{
    if s.len() == 0 {
        Seq::empty()
    } else {
        placed(arranged(s.drop_last(), before), s.last(), before)
    }
}

/// The index at which `placed` puts `x`, found from the end.
pub proof fn lemma_placed_insert<A>(t: Seq<A>, x: A, before: spec_fn(A, A) -> bool, at: int)
    requires
        0 <= at <= t.len(),
        forall|i: int| at <= i < t.len() ==> before(x, #[trigger] t[i]),
        at == 0 || !before(x, t[at - 1]),
    ensures
        placed(t, x, before) == t.insert(at, x),
    decreases t.len(),
{
    if at == t.len() {
        assert(t.insert(at, x) =~= t.push(x));
    } else {
        assert(before(x, t[t.len() - 1]));
        let front = t.drop_last();
        assert forall|i: int| at <= i < front.len() implies before(x, #[trigger] front[i]) by {
            assert(front[i] == t[i]);
        }
        lemma_placed_insert(front, x, before, at);
        assert(t.insert(at, x) =~= front.insert(at, x).push(t.last()));
    }
}

/// No later element has to come before an earlier one.
pub open spec fn in_order<A>(s: Seq<A>, before: spec_fn(A, A) -> bool) -> bool {
    forall|i: int, j: int|
        #![trigger s[i], s[j]]
        0 <= i < j < s.len() ==> !before(s[j], s[i])
}

/// `before` never holds both ways, and what is not before one thing is not
/// before what comes before that.
pub open spec fn weak_order<A>(before: spec_fn(A, A) -> bool) -> bool {
    &&& forall|a: A, b: A| #[trigger] before(a, b) ==> !before(b, a)
    &&& forall|a: A, b: A, c: A|
        !(#[trigger] before(a, b)) && !(#[trigger] before(b, c)) ==> !before(a, c)
}

proof fn lemma_placed<A>(t: Seq<A>, x: A, before: spec_fn(A, A) -> bool)
    requires
        weak_order(before),
        in_order(t, before),
    ensures
        in_order(placed(t, x, before), before),
        placed(t, x, before).len() == t.len() + 1,
        placed(t, x, before).to_multiset() =~= t.to_multiset().insert(x),
        forall|i: int|
            0 <= i < t.len() + 1 ==> (#[trigger] placed(t, x, before)[i] == x || t.contains(
                placed(t, x, before)[i],
            )),
    decreases t.len(),
{
    broadcast use vstd::seq_lib::group_to_multiset_ensures;

    let p = placed(t, x, before);
    if t.len() > 0 && before(x, t.last()) {
        let front = t.drop_last();
        assert(in_order(front, before)) by {
            assert forall|i: int, j: int|
                #![trigger front[i], front[j]]
                0 <= i < j < front.len() implies !before(front[j], front[i]) by {
                assert(!before(t[j], t[i]));
            }
        }
        lemma_placed(front, x, before);
        let q = placed(front, x, before);
        assert(p == q.push(t.last()));
        assert forall|i: int, j: int|
            #![trigger p[i], p[j]]
            0 <= i < j < p.len() implies !before(p[j], p[i]) by {
            if j < q.len() {
                assert(!before(q[j], q[i]));
            } else {
                assert(p[j] == t.last());
                assert(p[i] == q[i]);
                if q[i] != x {
                    let k = choose|k: int| 0 <= k < front.len() && front[k] == q[i];
                    assert(t[k] == q[i]);
                    assert(!before(t[t.len() - 1], t[k]));
                }
            }
        }
        assert forall|i: int| 0 <= i < p.len() implies #[trigger] p[i] == x || t.contains(p[i]) by {
            if i < q.len() {
                assert(p[i] == q[i]);
                if q[i] != x {
                    let k = choose|k: int| 0 <= k < front.len() && front[k] == q[i];
                    assert(t[k] == p[i]);
                }
            } else {
                assert(p[i] == t[t.len() - 1]);
            }
        }
        assert(t =~= front.push(t.last()));
        assert(p.to_multiset() =~= q.to_multiset().insert(t.last()));
        assert(t.to_multiset() =~= front.to_multiset().insert(t.last()));
    } else {
        assert forall|i: int, j: int|
            #![trigger p[i], p[j]]
            0 <= i < j < p.len() implies !before(p[j], p[i]) by {
            if j < t.len() {
                assert(!before(t[j], t[i]));
            } else if t.len() > 0 {
                assert(p[j] == x);
                if i < t.len() - 1 {
                    assert(!before(t[t.len() - 1], t[i]));
                }
            }
        }
        assert forall|i: int| 0 <= i < p.len() implies #[trigger] p[i] == x || t.contains(p[i]) by {
            if i < t.len() {
                assert(p[i] == t[i]);
            }
        }
    }
}

/// An arrangement by a weak order is in order and loses or adds nothing.
pub proof fn lemma_arranged<A>(s: Seq<A>, before: spec_fn(A, A) -> bool)
    requires
        weak_order(before),
    ensures
        in_order(arranged(s, before), before),
        arranged(s, before).to_multiset() =~= s.to_multiset(),
        arranged(s, before).len() == s.len(),
    decreases s.len(),
{
    broadcast use vstd::seq_lib::group_to_multiset_ensures;

    if s.len() > 0 {
        lemma_arranged(s.drop_last(), before);
        lemma_placed(arranged(s.drop_last(), before), s.last(), before);
        assert(s =~= s.drop_last().push(s.last()));
    } else {
        assert(s =~= Seq::<A>::empty());
    }
}

/// What stands in an arrangement stood in the sequence.
pub proof fn lemma_arranged_member<A>(s: Seq<A>, before: spec_fn(A, A) -> bool, i: int)
    requires
        weak_order(before),
        0 <= i < arranged(s, before).len(),
    ensures
        s.contains(arranged(s, before)[i]),
{
    broadcast use vstd::seq_lib::group_to_multiset_ensures;

    lemma_arranged(s, before);
    let x = arranged(s, before)[i];
    assert(arranged(s, before).contains(x));
    assert(arranged(s, before).to_multiset().count(x) > 0);
    assert(s.to_multiset().count(x) > 0);
}

proof fn lemma_placed_keep<A>(
    t: Seq<A>,
    x: A,
    before: spec_fn(A, A) -> bool,
    keeps: spec_fn(A) -> bool,
)
    ensures
        keep(placed(t, x, before), keeps).len() == keep(t, keeps).len() + if keeps(x) {
            1int
        } else {
            0int
        },
        forall|y: A| #[trigger]
            placed(t, x, before).contains(y) ==> t.contains(y) || y == x,
        forall|y: A| #[trigger] t.contains(y) ==> placed(t, x, before).contains(y),
        placed(t, x, before).contains(x),
        placed(t, x, before).len() == t.len() + 1,
    decreases t.len(),
{
    let p = placed(t, x, before);
    if t.len() > 0 && before(x, t.last()) {
        let front = t.drop_last();
        lemma_placed_keep(front, x, before, keeps);
        let q = placed(front, x, before);
        assert(p == q.push(t.last()));
        assert(p.drop_last() =~= q);
        assert(p.last() == t.last());
        assert forall|y: A| #[trigger] p.contains(y) implies t.contains(y) || y == x by {
            let i = choose|i: int| 0 <= i < p.len() && p[i] == y;
            if i < q.len() {
                assert(q[i] == y);
                assert(q.contains(y));
                if y != x {
                    assert(front.contains(y));
                    let j = choose|j: int| 0 <= j < front.len() && front[j] == y;
                    assert(t[j] == y);
                }
            } else {
                assert(t[t.len() - 1] == y);
            }
        }
        assert forall|y: A| #[trigger] t.contains(y) implies p.contains(y) by {
            let i = choose|i: int| 0 <= i < t.len() && t[i] == y;
            if i < front.len() {
                assert(front[i] == y);
                assert(front.contains(y));
                assert(q.contains(y));
                let j = choose|j: int| 0 <= j < q.len() && q[j] == y;
                assert(p[j] == y);
            } else {
                assert(p[p.len() - 1] == y);
            }
        }
        let j = choose|j: int| 0 <= j < q.len() && q[j] == x;
        assert(p[j] == x);
    } else {
        assert(p.drop_last() =~= t);
        assert(p.last() == x);
        assert forall|y: A| #[trigger] p.contains(y) implies t.contains(y) || y == x by {
            let i = choose|i: int| 0 <= i < p.len() && p[i] == y;
            if i < t.len() {
                assert(t[i] == y);
            }
        }
        assert forall|y: A| #[trigger] t.contains(y) implies p.contains(y) by {
            let i = choose|i: int| 0 <= i < t.len() && t[i] == y;
            assert(p[i] == y);
        }
        assert(p[p.len() - 1] == x);
    }
}

/// To arrange elements neither adds any nor loses any: of each sort there are as
/// many as before.
pub proof fn lemma_arranged_keeps<A>(
    s: Seq<A>,
    before: spec_fn(A, A) -> bool,
    keeps: spec_fn(A) -> bool,
)
    ensures
        keep(arranged(s, before), keeps).len() == keep(s, keeps).len(),
        forall|y: A| #[trigger] arranged(s, before).contains(y) ==> s.contains(y),
        forall|y: A| #[trigger] s.contains(y) ==> arranged(s, before).contains(y),
        arranged(s, before).len() == s.len(),
    decreases s.len(),
{
    if s.len() > 0 {
        let front = s.drop_last();
        let before_last = arranged(front, before);
        lemma_arranged_keeps(front, before, keeps);
        lemma_placed_keep(arranged(front, before), s.last(), before, keeps);
        assert forall|y: A| #[trigger] arranged(s, before).contains(y) implies s.contains(y) by {
            if y == s.last() {
                assert(s[s.len() - 1] == y);
            } else {
                assert(before_last.contains(y));
                assert(front.contains(y));
                let i = choose|i: int| 0 <= i < front.len() && front[i] == y;
                assert(s[i] == y);
            }
        }
        assert forall|y: A| #[trigger] s.contains(y) implies arranged(s, before).contains(y) by {
            let i = choose|i: int| 0 <= i < s.len() && s[i] == y;
            if i < front.len() {
                assert(front[i] == y);
                assert(front.contains(y));
                assert(before_last.contains(y));
            }
        }
    }
}

} // verus!
