//! The order of texts, stable sorting, and sets of texts that are walked in order.

use vstd::prelude::*;
use crate::text;

verus! {

/// Whether `a` stands before `b`: compared character by character, by code point, where a text
/// stands before every longer one that it begins.
pub open spec fn precedes(a: Seq<char>, b: Seq<char>) -> bool
    decreases a.len(),
{
    if b.len() == 0 {
        false
    } else if a.len() == 0 {
        true
    } else if a[0] != b[0] {
        (a[0] as int) < (b[0] as int)
    } else {
        precedes(a.skip(1), b.skip(1))
    }
}

pub proof fn precedes_irreflexive(a: Seq<char>)
    ensures
        !precedes(a, a),
    decreases a.len(),
{
    if a.len() > 0 {
        precedes_irreflexive(a.skip(1));
    }
}

pub proof fn precedes_transitive(a: Seq<char>, b: Seq<char>, c: Seq<char>)
    requires
        precedes(a, b),
        precedes(b, c),
    ensures
        precedes(a, c),
    decreases a.len(),
{
    if a.len() > 0 && b.len() > 0 && c.len() > 0 && a[0] == b[0] && b[0] == c[0] {
        precedes_transitive(a.skip(1), b.skip(1), c.skip(1));
    }
}

pub proof fn precedes_total(a: Seq<char>, b: Seq<char>)
    ensures
        a == b || precedes(a, b) || precedes(b, a),
    decreases a.len(),
{
    if a.len() > 0 && b.len() > 0 && a[0] == b[0] {
        precedes_total(a.skip(1), b.skip(1));
        if a.skip(1) == b.skip(1) {
            assert(a =~= seq![a[0]] + a.skip(1));
            assert(b =~= seq![b[0]] + b.skip(1));
        }
    } else if a.len() == 0 && b.len() == 0 {
        assert(a =~= b);
    }
}

/// The code point of a character.
fn code_of(c: char) -> (r: u32)
    ensures
        r as int == c as int,
{
    c as u32
}

/// Whether `a` stands before `b`.
pub fn less(a: &str, b: &str) -> (r: bool)
    ensures
        r == precedes(a@, b@),
{
    let x = text::chars_of(a);
    let y = text::chars_of(b);
    let mut i: usize = 0;
    assert(a@.skip(0) =~= a@);
    assert(b@.skip(0) =~= b@);
    while i < x.len() && i < y.len() && x[i] == y[i]
        invariant
            x@ == a@,
            y@ == b@,
            i <= x@.len(),
            i <= y@.len(),
            precedes(a@, b@) == precedes(a@.skip(i as int), b@.skip(i as int)),
        decreases x@.len() - i,
    {
        assert(a@.skip(i as int).skip(1) =~= a@.skip(i + 1));
        assert(b@.skip(i as int).skip(1) =~= b@.skip(i + 1));
        i = i + 1;
    }
    if i == y.len() {
        false
    } else if i == x.len() {
        true
    } else {
        let p: char = x[i];
        let q: char = y[i];
        code_of(p) < code_of(q)
    }
}

// ---------------------------------------------------------------------------------------------
// Stable sorting

/// `s` with `x` put behind the last item that `x` does not stand before.
pub open spec fn placed<V>(s: Seq<V>, x: V, before: spec_fn(V, V) -> bool) -> Seq<V>
    decreases s.len(),
{
    if s.len() == 0 || !before(x, s.last()) {
        s.push(x)
    } else {
        placed(s.drop_last(), x, before).push(s.last())
    }
}

/// The items of `s` in order, where items of which neither stands before the other keep the order
/// that they have in `s`.
pub open spec fn arranged<V>(s: Seq<V>, before: spec_fn(V, V) -> bool) -> Seq<V>
    decreases s.len(),
{
    if s.len() == 0 {
        s
    } else {
        placed(arranged(s.drop_last(), before), s.last(), before)
    }
}

/// A strict order in which items may tie.
pub open spec fn orders<V>(before: spec_fn(V, V) -> bool) -> bool {
    &&& forall|a: V| !#[trigger] before(a, a)
    &&& forall|a: V, b: V, c: V| #[trigger] before(a, b) && #[trigger] before(b, c) ==> before(a, c)
    &&& forall|a: V, b: V, c: V|
        #![trigger before(a, b), before(b, c)]
        !before(a, b) && !before(b, c) ==> !before(a, c)
}

pub open spec fn in_order<V>(s: Seq<V>, before: spec_fn(V, V) -> bool) -> bool {
    forall|i: int, j: int| 0 <= i < j < s.len() ==> !before(#[trigger] s[j], #[trigger] s[i])
}

proof fn placed_facts<V>(s: Seq<V>, x: V, before: spec_fn(V, V) -> bool)
    ensures
        placed(s, x, before).len() == s.len() + 1,
        placed(s, x, before).to_multiset() == s.to_multiset().insert(x),
        orders(before) && in_order(s, before) ==> in_order(placed(s, x, before), before),
        forall|y: V| #[trigger]
            placed(s, x, before).contains(y) ==> y == x || s.contains(y),
    decreases s.len(),
{
    broadcast use vstd::seq_lib::group_to_multiset_ensures;

    if s.len() == 0 || !before(x, s.last()) {
        let r = s.push(x);
        if orders(before) && in_order(s, before) {
            assert forall|i: int, j: int| 0 <= i < j < r.len() implies !before(
                #[trigger] r[j],
                #[trigger] r[i],
            ) by {
                if j == s.len() {
                    if i < s.len() - 1 {
                        assert(!before(s.last(), s[i]));
                        assert(!before(x, s.last()));
                    }
                } else {
                    assert(!before(s[j], s[i]));
                }
            }
        }
        assert forall|y: V| #[trigger] r.contains(y) implies y == x || s.contains(y) by {
            let k = choose|k: int| 0 <= k < r.len() && r[k] == y;
            if k < s.len() {
                assert(s[k] == y);
            }
        }
    } else {
        let front = s.drop_last();
        placed_facts(front, x, before);
        let p = placed(front, x, before);
        let r = p.push(s.last());
        assert(front.push(s.last()) =~= s);
        if orders(before) && in_order(s, before) {
            assert forall|i: int, j: int| 0 <= i < j < front.len() implies !before(
                #[trigger] front[j],
                #[trigger] front[i],
            ) by {
                assert(!before(s[j], s[i]));
            }
            assert forall|i: int, j: int| 0 <= i < j < r.len() implies !before(
                #[trigger] r[j],
                #[trigger] r[i],
            ) by {
                if j == p.len() {
                    assert(p.contains(p[i]));
                    if p[i] == x {
                        if before(s.last(), x) {
                            assert(before(x, x));
                        }
                    } else {
                        let k = choose|k: int| 0 <= k < front.len() && front[k] == p[i];
                        assert(!before(s[s.len() - 1], s[k]));
                    }
                } else {
                    assert(!before(p[j], p[i]));
                }
            }
        }
        assert forall|y: V| #[trigger] r.contains(y) implies y == x || s.contains(y) by {
            let k = choose|k: int| 0 <= k < r.len() && r[k] == y;
            if k < p.len() {
                assert(p.contains(y));
                if y != x {
                    let m = choose|m: int| 0 <= m < front.len() && front[m] == y;
                    assert(s[m] == y);
                }
            } else {
                assert(s[s.len() - 1] == y);
            }
        }
    }
}

/// Arranging keeps the items, and puts them in order.
pub proof fn arranged_is_sorted_permutation<V>(s: Seq<V>, before: spec_fn(V, V) -> bool)
    ensures
        arranged(s, before).len() == s.len(),
        arranged(s, before).to_multiset() == s.to_multiset(),
        orders(before) ==> in_order(arranged(s, before), before),
    decreases s.len(),
{
    broadcast use vstd::seq_lib::group_to_multiset_ensures;

    if s.len() > 0 {
        arranged_is_sorted_permutation(s.drop_last(), before);
        placed_facts(arranged(s.drop_last(), before), s.last(), before);
        assert(s.drop_last().push(s.last()) =~= s);
    }
}

/// What is arranged was there before.
pub proof fn arranged_adds_nothing<V>(s: Seq<V>, before: spec_fn(V, V) -> bool, x: V)
    requires
        arranged(s, before).contains(x),
    ensures
        s.contains(x),
    decreases s.len(),
{
    if s.len() > 0 {
        placed_facts(arranged(s.drop_last(), before), s.last(), before);
        if x == s.last() {
            assert(s[s.len() - 1] == x);
        } else {
            arranged_adds_nothing(s.drop_last(), before, x);
            let k = choose|k: int| 0 <= k < s.drop_last().len() && s.drop_last()[k] == x;
            assert(s[k] == x);
        }
    }
}

/// The items of `s` that tie with `x`, in their order.
pub open spec fn ties<V>(s: Seq<V>, x: V, before: spec_fn(V, V) -> bool) -> Seq<V> {
    s.filter(|y: V| !before(x, y) && !before(y, x))
}

proof fn filter_push<V>(s: Seq<V>, x: V, keep: spec_fn(V) -> bool)
    ensures
        s.push(x).filter(keep) == if keep(x) {
            s.filter(keep).push(x)
        } else {
            s.filter(keep)
        },
{
    reveal(Seq::filter);
    assert(s.push(x).drop_last() =~= s);
}

proof fn placed_keeps_ties<V>(s: Seq<V>, x: V, t: V, before: spec_fn(V, V) -> bool)
    requires
        orders(before),
    ensures
        ties(placed(s, x, before), t, before) == ties(s.push(x), t, before),
    decreases s.len(),
{
    let keep = |y: V| !before(t, y) && !before(y, t);
    if s.len() > 0 && before(x, s.last()) {
        let front = s.drop_last();
        placed_keeps_ties(front, x, t, before);
        filter_push(placed(front, x, before), s.last(), keep);
        filter_push(front, x, keep);
        filter_push(s, x, keep);
        filter_push(front, s.last(), keep);
        assert(front.push(s.last()) =~= s);
        if keep(x) && keep(s.last()) {
            assert(!before(x, t) && !before(t, s.last()));
            assert(false);
        }
    }
}

/// Arranging is stable: items that tie keep their order.
pub proof fn arranged_is_stable<V>(s: Seq<V>, x: V, before: spec_fn(V, V) -> bool)
    requires
        orders(before),
    ensures
        ties(arranged(s, before), x, before) == ties(s, x, before),
    decreases s.len(),
{
    if s.len() > 0 {
        let keep = |y: V| !before(x, y) && !before(y, x);
        arranged_is_stable(s.drop_last(), x, before);
        placed_keeps_ties(arranged(s.drop_last(), before), s.last(), x, before);
        filter_push(arranged(s.drop_last(), before), s.last(), keep);
        filter_push(s.drop_last(), s.last(), keep);
        assert(s.drop_last().push(s.last()) =~= s);
    }
}

proof fn multiset_of_insert<T>(s: Seq<T>, i: int, x: T)
    requires
        0 <= i <= s.len(),
    ensures
        s.insert(i, x).to_multiset() == s.to_multiset().insert(x),
{
    broadcast use vstd::seq_lib::group_to_multiset_ensures;

    let t = s.insert(i, x);
    assert(t.remove(i) =~= s);
    assert(t[i] == x);
    assert(t.contains(x));
    assert(t.to_multiset() =~= s.to_multiset().insert(x));
}

/// Whether a comparison of two items goes together with the comparisons of either with others, as in
/// an order.
pub open spec fn compares<V>(before: spec_fn(V, V) -> bool, a: V, b: V) -> bool {
    if before(a, b) {
        &&& !before(b, a)
        &&& forall|c: V| #[trigger] before(b, c) ==> before(a, c)
    } else {
        forall|c: V| !#[trigger] before(b, c) ==> !before(a, c)
    }
}

/// Whether an item can stand right behind another.
spec fn follows<V>(before: spec_fn(V, V) -> bool, p: V, q: V) -> bool {
    &&& !before(q, p)
    &&& forall|c: V| !#[trigger] before(p, c) ==> !before(q, c)
}

spec fn linked<V>(s: Seq<V>, before: spec_fn(V, V) -> bool) -> bool {
    forall|k: int| #![trigger s[k]] 0 < k < s.len() ==> follows(before, s[k - 1], s[k])
}

proof fn linked_in_order<V>(s: Seq<V>, before: spec_fn(V, V) -> bool)
    requires
        linked(s, before),
    ensures
        in_order(s, before),
{
    assert forall|i: int, j: int| 0 <= i < j < s.len() implies !before(
        #[trigger] s[j],
        #[trigger] s[i],
    ) by {
        linked_apart(s, before, i, j);
    }
}

proof fn linked_apart<V>(s: Seq<V>, before: spec_fn(V, V) -> bool, i: int, j: int)
    requires
        linked(s, before),
        0 <= i < j < s.len(),
    ensures
        !before(s[j], s[i]),
    decreases j,
{
    assert(follows(before, s[j - 1], s[j]));
    if i < j - 1 {
        linked_apart(s, before, i, j - 1);
    }
}

/// Puts the items in order, by a comparison that goes by what `view` shows of them.
pub(crate) fn sort_by<T, V, F: Fn(&T, &T) -> bool>(
    v: &mut Vec<T>,
    before: F,
    Ghost(view): Ghost<spec_fn(T) -> V>,
    Ghost(rel): Ghost<spec_fn(V, V) -> bool>,
)
    requires
        forall|a: &T, b: &T| #[trigger] call_requires(before, (a, b)),
        forall|a: &T, b: &T, r: bool| #[trigger]
            call_ensures(before, (a, b), r) ==> r == rel(view(*a), view(*b)),
    ensures
        final(v)@.map_values(view) == arranged(old(v)@.map_values(view), rel),
        final(v)@.to_multiset() == old(v)@.to_multiset(),
        (forall|a: &T, b: &T, r: bool| #[trigger]
            call_ensures(before, (a, b), r) ==> compares(rel, view(*a), view(*b))) ==> in_order(
            final(v)@.map_values(view),
            rel,
        ),
{
    broadcast use vstd::seq_lib::group_to_multiset_ensures;

    let ghost fair = forall|a: &T, b: &T, r: bool| #[trigger]
        call_ensures(before, (a, b), r) ==> compares(rel, view(*a), view(*b));
    let ghost all = v@;
    let n = v.len();
    let mut i: usize = 0;
    assert(v@.take(0).map_values(view) =~= arranged(all.take(0).map_values(view), rel));
    while i < n
        invariant
            n == v@.len() == all.len(),
            i <= n,
            forall|a: &T, b: &T| #[trigger] call_requires(before, (a, b)),
            forall|a: &T, b: &T, r: bool| #[trigger]
                call_ensures(before, (a, b), r) ==> r == rel(view(*a), view(*b)),
            v@.take(i as int).map_values(view) == arranged(all.take(i as int).map_values(view), rel),
            v@.skip(i as int) == all.skip(i as int),
            v@.to_multiset() == all.to_multiset(),
            fair == forall|a: &T, b: &T, r: bool| #[trigger]
                call_ensures(before, (a, b), r) ==> compares(rel, view(*a), view(*b)),
            fair ==> linked(v@.take(i as int).map_values(view), rel),
        decreases n - i,
    {
        let ghost front = v@.take(i as int).map_values(view);
        let ghost start = v@;
        assert(v@[i as int] == v@.skip(i as int)[0]);
        assert(all[i as int] == all.skip(i as int)[0]);
        let x = v.remove(i);
        let ghost rest = v@;
        let mut j: usize = i;
        assert(front.take(i as int) =~= front);
        assert(placed(front, view(x), rel) =~= placed(front.take(i as int), view(x), rel)
            + front.skip(i as int));
        while j > 0 && before(&x, &v[j - 1])
            invariant
                j <= i,
                i < n,
                v@ == rest,
                rest.len() == n - 1,
                rest.take(i as int) =~= start.take(i as int),
                front == start.take(i as int).map_values(view),
                start.len() == n,
                forall|a: &T, b: &T| #[trigger] call_requires(before, (a, b)),
                forall|a: &T, b: &T, r: bool| #[trigger]
                    call_ensures(before, (a, b), r) ==> r == rel(view(*a), view(*b)),
                placed(front, view(x), rel) == placed(front.take(j as int), view(x), rel)
                    + front.skip(j as int),
                fair == forall|a: &T, b: &T, r: bool| #[trigger]
                    call_ensures(before, (a, b), r) ==> compares(rel, view(*a), view(*b)),
                fair && j < i ==> follows(rel, view(x), front[j as int]),
            ensures
                j <= i,
                v@ == rest,
                j == 0 || !rel(view(x), front[j - 1]),
                fair && j > 0 ==> follows(rel, front[j - 1], view(x)),
                fair && j < i ==> follows(rel, view(x), front[j as int]),
                placed(front, view(x), rel) == placed(front.take(j as int), view(x), rel)
                    + front.skip(j as int),
            decreases j,
        {
            assert(rest.take(i as int)[j - 1] == start.take(i as int)[j - 1]);
            assert(front[j - 1] == view(v@[j - 1]));
            assert(front.take(j as int).drop_last() =~= front.take(j - 1));
            assert(front.take(j as int).last() == front[j - 1]);
            assert(placed(front.take(j as int), view(x), rel) + front.skip(j as int) =~= placed(
                front.take(j - 1),
                view(x),
                rel,
            ) + front.skip(j - 1));
            j = j - 1;
        }
        v.insert(j, x);
        proof {
            if j > 0 {
                assert(front.take(j as int).last() == front[j - 1]);
            }
            assert(placed(front.take(j as int), view(x), rel) == front.take(j as int).push(view(x)));
            assert(v@.take(i + 1).map_values(view) =~= front.take(j as int).push(view(x))
                + front.skip(j as int));
            if fair {
                let next = v@.take(i + 1).map_values(view);
                assert forall|k: int| #![trigger next[k]] 0 < k < next.len() implies follows(
                    rel,
                    next[k - 1],
                    next[k],
                ) by {
                    if k < j {
                        assert(next[k] == front[k]);
                        assert(next[k - 1] == front[k - 1]);
                    } else if k > j + 1 {
                        assert(next[k] == front[k - 1]);
                        assert(next[k - 1] == front[k - 2]);
                    }
                }
            }
            assert(all.take(i + 1).map_values(view).drop_last() =~= all.take(i as int).map_values(
                view,
            ));
            assert(all.take(i + 1).map_values(view).last() == view(x));
            assert(v@.skip(i + 1) =~= all.skip(i + 1)) by {
                assert forall|k: int| 0 <= k < n - i - 1 implies #[trigger] v@.skip(i + 1)[k] == all.skip(i + 1)[k] by {
                    assert(start.skip(i as int)[k + 1] == all.skip(i as int)[k + 1]);
                }
            }
            assert(start =~= rest.insert(i as int, x));
            assert(start.to_multiset() =~= rest.to_multiset().insert(x)) by {
                multiset_of_insert(rest, i as int, x);
            }
            multiset_of_insert(rest, j as int, x);
        }
        i = i + 1;
    }
    assert(v@.take(i as int) =~= v@);
    assert(all.take(i as int) =~= all);
    proof {
        if fair {
            linked_in_order(v@.map_values(view), rel);
        }
    }
}

/// Texts are ordered by the first character in which they differ, and a text stands before what goes
/// on from it.
pub proof fn first_difference_decides(
    front: Seq<char>,
    a: char,
    b: char,
    rest: Seq<char>,
    other: Seq<char>,
)
    ensures
        (a as int) < (b as int) ==> precedes(front + seq![a] + rest, front + seq![b] + other),
        precedes(front, front + seq![a] + rest),
    decreases front.len(),
{
    let s = front + seq![a] + rest;
    let t = front + seq![b] + other;
    if front.len() > 0 {
        first_difference_decides(front.skip(1), a, b, rest, other);
        assert(s.skip(1) =~= front.skip(1) + seq![a] + rest);
        assert(t.skip(1) =~= front.skip(1) + seq![b] + other);
        assert(s[0] == front[0] && t[0] == front[0]);
    } else {
        assert(s[0] == a && t[0] == b);
    }
}

} // verus!
