//! Stable sorting.
use crate::text::{
    before, before_asymmetric, before_irreflexive, before_total, before_transitive, comes_before,
    same, views,
};
use vstd::prelude::*;

verus! {

/// `s` with `x` put behind the last item that it does not precede.
pub open spec fn inserted<T>(s: Seq<T>, x: T, precedes: spec_fn(T, T) -> bool) -> Seq<T>
    decreases s.len(),
{
    if s.len() == 0 {
        seq![x]
    } else if precedes(x, s.last()) {
        inserted(s.drop_last(), x, precedes).push(s.last())
    } else {
        s.push(x)
    }
}

/// The items of `s` in order; items of which neither precedes the other keep
/// their order.
pub open spec fn sorted<T>(s: Seq<T>, precedes: spec_fn(T, T) -> bool) -> Seq<T>
    decreases s.len(),
{
    if s.len() == 0 {
        Seq::empty()
    } else {
        inserted(sorted(s.drop_last(), precedes), s.last(), precedes)
    }
}

/// Whether no item is preceded by a later one.
pub open spec fn in_order<T>(s: Seq<T>, precedes: spec_fn(T, T) -> bool) -> bool {
    forall|i: int, j: int| 0 <= i < j < s.len() ==> !precedes(#[trigger] s[j], #[trigger] s[i])
}

/// A relation by which sorting makes sense: what precedes is not preceded, and
/// not preceding is transitive.
pub open spec fn is_order<T>(precedes: spec_fn(T, T) -> bool) -> bool {
    &&& forall|a: T, b: T| #[trigger] precedes(a, b) ==> !precedes(b, a)
    &&& forall|a: T, b: T, c: T|
        !(#[trigger] precedes(b, a)) && !(#[trigger] precedes(c, b)) ==> !precedes(c, a)
}

proof fn inserted_at<T>(s: Seq<T>, x: T, precedes: spec_fn(T, T) -> bool, p: int)
    requires
        0 <= p <= s.len(),
        forall|i: int| p <= i < s.len() ==> precedes(x, #[trigger] s[i]),
        p > 0 ==> !precedes(x, s[p - 1]),
    ensures
        inserted(s, x, precedes) == s.insert(p, x),
    decreases s.len(),
{
    if s.len() == 0 {
        assert(s.insert(p, x) =~= seq![x]);
    } else if p < s.len() {
        assert(precedes(x, s[s.len() - 1]));
        assert forall|i: int| p <= i < s.drop_last().len() implies precedes(
            x,
            #[trigger] s.drop_last()[i],
        ) by {
            assert(s.drop_last()[i] == s[i]);
        }
        inserted_at(s.drop_last(), x, precedes, p);
        assert(s.insert(p, x) =~= s.drop_last().insert(p, x).push(s.last()));
    } else {
        assert(s.insert(p, x) =~= s.push(x));
    }
}

proof fn inserted_multiset<T>(s: Seq<T>, x: T, precedes: spec_fn(T, T) -> bool)
    ensures
        inserted(s, x, precedes).to_multiset() =~= s.to_multiset().insert(x),
        inserted(s, x, precedes).len() == s.len() + 1,
    decreases s.len(),
{
    broadcast use vstd::seq_lib::group_to_multiset_ensures;

    if s.len() == 0 {
        assert(inserted(s, x, precedes) =~= s.push(x));
    } else if precedes(x, s.last()) {
        inserted_multiset(s.drop_last(), x, precedes);
        assert(s =~= s.drop_last().push(s.last()));
    }
}

/// Sorting loses and invents nothing.
pub proof fn sorted_is_permutation<T>(s: Seq<T>, precedes: spec_fn(T, T) -> bool)
    ensures
        sorted(s, precedes).to_multiset() =~= s.to_multiset(),
        sorted(s, precedes).len() == s.len(),
    decreases s.len(),
{
    broadcast use vstd::seq_lib::group_to_multiset_ensures;

    if s.len() > 0 {
        sorted_is_permutation(s.drop_last(), precedes);
        inserted_multiset(sorted(s.drop_last(), precedes), s.last(), precedes);
        assert(s =~= s.drop_last().push(s.last()));
    } else {
        assert(s =~= Seq::<T>::empty());
    }
}

/// Sorting holds what the sequence held, and nothing else.
pub proof fn sorted_holds_the_same<T>(s: Seq<T>, precedes: spec_fn(T, T) -> bool, x: T)
    ensures
        sorted(s, precedes).contains(x) <==> s.contains(x),
{
    broadcast use vstd::seq_lib::group_to_multiset_ensures;

    sorted_is_permutation(s, precedes);
    assert(sorted(s, precedes).contains(x) <==> sorted(s, precedes).to_multiset().count(x) > 0);
    assert(s.contains(x) <==> s.to_multiset().count(x) > 0);
}

proof fn inserted_in_order<T>(s: Seq<T>, x: T, precedes: spec_fn(T, T) -> bool)
    requires
        is_order(precedes),
        in_order(s, precedes),
    ensures
        in_order(inserted(s, x, precedes), precedes),
        forall|y: T| #[trigger]
            inserted(s, x, precedes).contains(y) ==> y == x || s.contains(y),
    decreases s.len(),
{
    let r = inserted(s, x, precedes);
    if s.len() == 0 {
        assert(r =~= seq![x]);
        assert forall|y: T| r.contains(y) implies y == x by {}
    } else if precedes(x, s.last()) {
        let front = s.drop_last();
        assert forall|i: int, j: int| 0 <= i < j < front.len() implies !precedes(
            #[trigger] front[j],
            #[trigger] front[i],
        ) by {
            assert(front[j] == s[j] && front[i] == s[i]);
        }
        inserted_in_order(front, x, precedes);
        let q = inserted(front, x, precedes);
        assert forall|i: int, j: int| 0 <= i < j < r.len() implies !precedes(
            #[trigger] r[j],
            #[trigger] r[i],
        ) by {
            if j < q.len() {
                assert(r[j] == q[j] && r[i] == q[i]);
            } else {
                assert(r[i] == q[i]);
                assert(q.contains(q[i]));
                if q[i] != x {
                    assert(front.contains(q[i]));
                    let k = choose|k: int| 0 <= k < front.len() && front[k] == q[i];
                    assert(s[k] == front[k]);
                    assert(!precedes(s[s.len() - 1], s[k]));
                }
            }
        }
        assert forall|y: T| r.contains(y) implies y == x || s.contains(y) by {
            let k = choose|k: int| 0 <= k < r.len() && r[k] == y;
            if k < q.len() {
                assert(q[k] == y);
                assert(q.contains(y));
                if y != x {
                    assert(front.contains(y));
                    let m = choose|m: int| 0 <= m < front.len() && front[m] == y;
                    assert(s[m] == y);
                }
            } else {
                assert(s[s.len() - 1] == y);
            }
        }
    } else {
        assert(r == s.push(x));
        assert forall|i: int, j: int| 0 <= i < j < r.len() implies !precedes(
            #[trigger] r[j],
            #[trigger] r[i],
        ) by {
            if j == s.len() && i < s.len() - 1 {
                assert(!precedes(s[s.len() - 1], s[i]));
                assert(!precedes(x, s[s.len() - 1]));
            }
        }
        assert forall|y: T| r.contains(y) implies y == x || s.contains(y) by {
            let k = choose|k: int| 0 <= k < r.len() && r[k] == y;
            if k < s.len() {
                assert(s[k] == y);
            }
        }
    }
}

/// Sorting puts in order.
pub proof fn sorted_is_in_order<T>(s: Seq<T>, precedes: spec_fn(T, T) -> bool)
    requires
        is_order(precedes),
    ensures
        in_order(sorted(s, precedes), precedes),
    decreases s.len(),
{
    if s.len() > 0 {
        sorted_is_in_order(s.drop_last(), precedes);
        inserted_in_order(sorted(s.drop_last(), precedes), s.last(), precedes);
    }
}

proof fn inserted_maps<T, U>(
    s: Seq<T>,
    x: T,
    precedes: spec_fn(T, T) -> bool,
    f: spec_fn(T) -> U,
    comes: spec_fn(U, U) -> bool,
)
    requires
        forall|a: T, b: T| #[trigger] precedes(a, b) == comes(f(a), f(b)),
    ensures
        inserted(s, x, precedes).map_values(f) == inserted(s.map_values(f), f(x), comes),
    decreases s.len(),
{
    if s.len() == 0 {
        assert(inserted(s, x, precedes).map_values(f) =~= seq![f(x)]);
    } else if precedes(x, s.last()) {
        inserted_maps(s.drop_last(), x, precedes, f, comes);
        assert(s.map_values(f).drop_last() =~= s.drop_last().map_values(f));
        assert(inserted(s.drop_last(), x, precedes).push(s.last()).map_values(f) =~= inserted(
            s.drop_last(),
            x,
            precedes,
        ).map_values(f).push(f(s.last())));
    } else {
        assert(s.push(x).map_values(f) =~= s.map_values(f).push(f(x)));
    }
}

/// Sorting commutes with taking views.
pub proof fn sorted_maps<T, U>(
    s: Seq<T>,
    precedes: spec_fn(T, T) -> bool,
    f: spec_fn(T) -> U,
    comes: spec_fn(U, U) -> bool,
)
    requires
        forall|a: T, b: T| #[trigger] precedes(a, b) == comes(f(a), f(b)),
    ensures
        sorted(s, precedes).map_values(f) == sorted(s.map_values(f), comes),
    decreases s.len(),
{
    if s.len() == 0 {
        assert(sorted(s, precedes).map_values(f) =~= sorted(s.map_values(f), comes));
    } else {
        sorted_maps(s.drop_last(), precedes, f, comes);
        inserted_maps(sorted(s.drop_last(), precedes), s.last(), precedes, f, comes);
        assert(s.map_values(f).drop_last() =~= s.drop_last().map_values(f));
    }
}

/// Sorts, keeping the order of items of which neither precedes the other.
pub(crate) fn sort_stably<T, F: Fn(&T, &T) -> bool>(
    items: Vec<T>,
    comes: F,
    Ghost(precedes): Ghost<spec_fn(T, T) -> bool>,
) -> (r: Vec<T>)
    requires
        forall|a: &T, b: &T| call_requires(comes, (a, b)),
        forall|a: &T, b: &T, c: bool| #[trigger]
            call_ensures(comes, (a, b), c) ==> c == precedes(*a, *b),
    ensures
        r@ == sorted(items@, precedes),
{
    let ghost all = items@;
    let mut rest = items;
    let mut out: Vec<T> = Vec::new();
    let ghost mut done: int = 0;
    assert(all.skip(0) =~= all);
    while rest.len() > 0
        invariant
            0 <= done <= all.len(),
            rest@ == all.skip(done),
            out@ == sorted(all.take(done), precedes),
            forall|a: &T, b: &T| call_requires(comes, (a, b)),
            forall|a: &T, b: &T, c: bool| #[trigger]
                call_ensures(comes, (a, b), c) ==> c == precedes(*a, *b),
        decreases rest@.len(),
    {
        let x = rest.remove(0);
        let mut p: usize = out.len();
        while p > 0 && comes(&x, &out[p - 1])
            invariant
                p <= out@.len(),
                forall|a: &T, b: &T| call_requires(comes, (a, b)),
                forall|a: &T, b: &T, c: bool| #[trigger]
                    call_ensures(comes, (a, b), c) ==> c == precedes(*a, *b),
                forall|i: int| p <= i < out@.len() ==> precedes(x, #[trigger] out@[i]),
            ensures
                p <= out@.len(),
                forall|i: int| p <= i < out@.len() ==> precedes(x, #[trigger] out@[i]),
                p > 0 ==> !precedes(x, out@[p - 1]),
            decreases p,
        {
            p -= 1;
        }
        proof {
            inserted_at(out@, x, precedes, p as int);
            assert(all.take(done + 1).drop_last() =~= all.take(done));
            assert(all.take(done + 1).last() == x);
            assert(rest@ =~= all.skip(done + 1));
            done = done + 1;
        }
        out.insert(p, x);
    }
    assert(all.take(done) =~= all);
    out
}

// ---------------------------------------------------------------- strings
/// The order of strings as a relation.
pub open spec fn text_order() -> spec_fn(Seq<char>, Seq<char>) -> bool {
    |a: Seq<char>, b: Seq<char>| before(a, b)
}

/// The order of strings is one, and total.
pub proof fn text_order_is_order()
    ensures
        is_order(text_order()),
        is_total(text_order()),
{
    let o = text_order();
    assert forall|a: Seq<char>, b: Seq<char>| #![trigger o(a, b)] a == b || o(a, b) || o(b, a) by {
        before_total(a, b);
    }
    assert forall|a: Seq<char>, b: Seq<char>| #[trigger] o(a, b) implies !o(b, a) by {
        before_asymmetric(a, b);
    }
    assert forall|a: Seq<char>, b: Seq<char>, c: Seq<char>|
        !(#[trigger] o(b, a)) && !(#[trigger] o(c, b)) implies !o(c, a) by {
        before_total(a, b);
        before_total(b, c);
        if before(a, b) && before(b, c) {
            before_transitive(a, b, c);
            before_asymmetric(a, c);
        }
        if a == b || b == c {
        } else {
            before_asymmetric(a, c);
        }
    }
}

/// Sorts strings.
pub fn sort_strings(list: Vec<String>) -> (r: Vec<String>)
    ensures
        views(r@) == sorted(views(list@), text_order()),
{
    let ghost precedes = |a: String, b: String| before(a@, b@);
    let comes = |a: &String, b: &String| -> (c: bool)
        ensures
            c == before(a@, b@),
        { comes_before(a.as_str(), b.as_str()) };
    let ghost given = list@;
    let r = sort_stably(list, comes, Ghost(precedes));
    proof {
        sorted_maps(given, precedes, |v: String| v@, text_order());
    }
    r
}

/// `s` without items that equal the one before them.
pub open spec fn deduped<T>(s: Seq<T>) -> Seq<T>
    decreases s.len(),
{
    if s.len() <= 1 {
        s
    } else if s.last() == s[s.len() - 2] {
        deduped(s.drop_last())
    } else {
        deduped(s.drop_last()).push(s.last())
    }
}

/// Removes strings that equal the one before them.
pub fn dedup_strings(list: Vec<String>) -> (r: Vec<String>)
    ensures
        views(r@) == deduped(views(list@)),
{
    let mut out: Vec<String> = Vec::new();
    let mut i: usize = 0;
    assert(views(out@) =~= deduped(views(list@).take(0)));
    while i < list.len()
        invariant
            i <= list@.len(),
            views(out@) == deduped(views(list@).take(i as int)),
        decreases list@.len() - i,
    {
        let ghost now = views(list@).take(i + 1);
        assert(now.drop_last() =~= views(list@).take(i as int));
        assert(now.last() == list@[i as int]@);
        let repeats = i > 0 && same(list[i].as_str(), list[i - 1].as_str());
        if !repeats {
            let ghost kept = views(out@);
            let s = list[i].clone();
            out.push(s);
            assert(views(out@) =~= kept.push(list@[i as int]@));
            if i == 0 {
                assert(now =~= seq![list@[0]@]);
                assert(kept =~= Seq::<Seq<char>>::empty());
            }
        }
        i += 1;
    }
    assert(views(list@).take(list@.len() as int) =~= views(list@));
    out
}

/// The last item stays the last, and what is held is what was held.
pub proof fn deduped_holds_the_same<T>(s: Seq<T>)
    ensures
        s.len() > 0 ==> deduped(s).len() > 0 && deduped(s).last() == s.last(),
        forall|x: T| #[trigger] deduped(s).contains(x) <==> s.contains(x),
    decreases s.len(),
{
    if s.len() > 1 {
        let t = s.drop_last();
        deduped_holds_the_same(t);
        let d = deduped(t);
        assert forall|x: T| #[trigger] deduped(s).contains(x) <==> s.contains(x) by {
            assert(d.contains(x) <==> t.contains(x));
            if s.contains(x) {
                let k = choose|k: int| 0 <= k < s.len() && s[k] == x;
                if k < t.len() {
                    assert(t[k] == x);
                } else {
                    assert(s.last() == s[s.len() - 2] ==> t[t.len() - 1] == x);
                    assert(s.last() == s[s.len() - 2] ==> t.contains(x));
                    if s.last() != s[s.len() - 2] {
                        assert(deduped(s)[deduped(s).len() - 1] == x);
                    }
                }
                if t.contains(x) {
                    let m = choose|m: int| 0 <= m < d.len() && d[m] == x;
                    if s.last() != s[s.len() - 2] {
                        assert(deduped(s)[m] == x);
                    }
                }
            }
            if deduped(s).contains(x) {
                let k = choose|k: int| 0 <= k < deduped(s).len() && deduped(s)[k] == x;
                if s.last() == s[s.len() - 2] || k < d.len() {
                    assert(d[k] == x);
                    assert(d.contains(x));
                    let m = choose|m: int| 0 <= m < t.len() && t[m] == x;
                    assert(s[m] == x);
                } else {
                    assert(s[s.len() - 1] == x);
                }
            }
        }
    }
}

/// Whether every item precedes all that follow it.
pub open spec fn strictly_ordered<T>(s: Seq<T>, precedes: spec_fn(T, T) -> bool) -> bool {
    forall|i: int, j: int| 0 <= i < j < s.len() ==> precedes(#[trigger] s[i], #[trigger] s[j])
}

/// Of two different items one precedes the other.
pub open spec fn is_total<T>(precedes: spec_fn(T, T) -> bool) -> bool {
    forall|a: T, b: T| #![trigger precedes(a, b)] a == b || precedes(a, b) || precedes(b, a)
}

/// What is in order and without repetitions is strictly so.
pub proof fn deduped_is_strictly_ordered<T>(s: Seq<T>, precedes: spec_fn(T, T) -> bool)
    requires
        is_order(precedes),
        is_total(precedes),
        in_order(s, precedes),
    ensures
        strictly_ordered(deduped(s), precedes),
    decreases s.len(),
{
    if s.len() > 1 {
        let t = s.drop_last();
        assert forall|i: int, j: int| 0 <= i < j < t.len() implies !precedes(
            #[trigger] t[j],
            #[trigger] t[i],
        ) by {
            assert(t[j] == s[j] && t[i] == s[i]);
        }
        deduped_is_strictly_ordered(t, precedes);
        deduped_holds_the_same(t);
        let d = deduped(t);
        if s.last() != s[s.len() - 2] {
            let x = s.last();
            let y = t.last();
            assert(!precedes(s[s.len() - 1], s[s.len() - 2]));
            assert(!precedes(x, y));
            assert(precedes(y, x));
            assert forall|i: int, j: int| 0 <= i < j < deduped(s).len() implies precedes(
                #[trigger] deduped(s)[i],
                #[trigger] deduped(s)[j],
            ) by {
                if j < d.len() {
                    assert(precedes(d[i], d[j]));
                } else {
                    if i < d.len() - 1 {
                        assert(precedes(d[i], d[d.len() - 1]));
                        assert(!precedes(y, d[i]));
                        assert(!precedes(x, d[i]));
                        assert(precedes(d[i], x) || d[i] == x);
                    }
                }
            }
        }
    }
}

/// Sorting and removing repetitions gives every item once, in order.
pub proof fn sorted_and_deduped<T>(s: Seq<T>, precedes: spec_fn(T, T) -> bool)
    requires
        is_order(precedes),
        is_total(precedes),
    ensures
        strictly_ordered(deduped(sorted(s, precedes)), precedes),
        forall|x: T| #[trigger] deduped(sorted(s, precedes)).contains(x) <==> s.contains(x),
        deduped(sorted(s, precedes)).no_duplicates(),
{
    sorted_is_in_order(s, precedes);
    deduped_is_strictly_ordered(sorted(s, precedes), precedes);
    deduped_holds_the_same(sorted(s, precedes));
    let r = deduped(sorted(s, precedes));
    assert forall|x: T| #[trigger] r.contains(x) <==> s.contains(x) by {
        sorted_holds_the_same(s, precedes, x);
    }
    assert forall|i: int, j: int| 0 <= i < r.len() && 0 <= j < r.len() && i != j implies r[i]
        != r[j] by {
        if i < j {
            assert(precedes(r[i], r[j]));
            assert(!precedes(r[j], r[i]));
        } else {
            assert(precedes(r[j], r[i]));
            assert(!precedes(r[i], r[j]));
        }
    }
}

/// Sorted and without repetitions.
pub open spec fn sorted_set(s: Seq<Seq<char>>) -> Seq<Seq<char>> {
    deduped(sorted(s, text_order()))
}

/// Sorting and removing repetitions gives every string once, in order.
pub proof fn sorted_set_is_increasing(s: Seq<Seq<char>>)
    ensures
        strictly_ordered(sorted_set(s), text_order()),
        forall|x: Seq<char>| #[trigger] sorted_set(s).contains(x) <==> s.contains(x),
        sorted_set(s).no_duplicates(),
{
    text_order_is_order();
    sorted_and_deduped(s, text_order());
}

/// Sorts strings and removes repetitions.
pub fn sort_and_dedup(list: Vec<String>) -> (r: Vec<String>)
    ensures
        views(r@) == sorted_set(views(list@)),
{
    let ordered = sort_strings(list);
    dedup_strings(ordered)
}

/// The order of pairs of strings: by the first, then by the second.
pub open spec fn pair_order() -> spec_fn((Seq<char>, Seq<char>), (Seq<char>, Seq<char>)) -> bool {
    |a: (Seq<char>, Seq<char>), b: (Seq<char>, Seq<char>)|
        before(a.0, b.0) || (a.0 == b.0 && before(a.1, b.1))
}

/// The order of pairs of strings is one, and total.
pub proof fn pair_order_is_order()
    ensures
        is_order(pair_order()),
        is_total(pair_order()),
{
    let o = pair_order();
    let t = text_order();
    text_order_is_order();
    assert forall|a: (Seq<char>, Seq<char>), b: (Seq<char>, Seq<char>)| #[trigger]
        o(a, b) implies !o(b, a) by {
        assert(t(a.0, b.0) ==> !t(b.0, a.0));
        assert(t(a.1, b.1) ==> !t(b.1, a.1));
        before_irreflexive(a.0);
    }
    assert forall|
        a: (Seq<char>, Seq<char>),
        b: (Seq<char>, Seq<char>),
        c: (Seq<char>, Seq<char>),
    |
        !(#[trigger] o(b, a)) && !(#[trigger] o(c, b)) implies !o(c, a) by {
        assert(!t(b.0, a.0) && !t(c.0, b.0));
        assert(!t(c.0, a.0));
        if c.0 == a.0 && t(c.1, a.1) {
            before_total(a.0, b.0);
            before_total(b.0, c.0);
            before_asymmetric_both(a.0, b.0);
            assert(a.0 == b.0);
            assert(!t(b.1, a.1) && !t(c.1, b.1));
            assert(!t(c.1, a.1));
        }
    }
    assert forall|a: (Seq<char>, Seq<char>), b: (Seq<char>, Seq<char>)| #![trigger o(a, b)] a == b
        || o(a, b) || o(b, a) by {
        before_total(a.0, b.0);
        before_total(a.1, b.1);
    }
}

proof fn before_asymmetric_both(a: Seq<char>, b: Seq<char>)
    ensures
        !(before(a, b) && before(b, a)),
{
    if before(a, b) {
        before_asymmetric(a, b);
    }
}

/// The views of pairs of strings.
pub open spec fn text_pairs(list: Seq<(String, String)>) -> Seq<(Seq<char>, Seq<char>)> {
    list.map_values(|p: (String, String)| (p.0@, p.1@))
}

/// Pairs of strings, each once, in order.
pub fn sort_and_dedup_pairs(list: Vec<(String, String)>) -> (r: Vec<(String, String)>)
    ensures
        text_pairs(r@) == deduped(sorted(text_pairs(list@), pair_order())),
        strictly_ordered(text_pairs(r@), pair_order()),
        forall|x: (Seq<char>, Seq<char>)| #[trigger]
            text_pairs(r@).contains(x) <==> text_pairs(list@).contains(x),
{
    let ghost precedes = |a: (String, String), b: (String, String)|
        before(a.0@, b.0@) || (a.0@ == b.0@ && before(a.1@, b.1@));
    let comes = |a: &(String, String), b: &(String, String)| -> (c: bool)
        ensures
            c == (before(a.0@, b.0@) || (a.0@ == b.0@ && before(a.1@, b.1@))),
        {
            comes_before(a.0.as_str(), b.0.as_str()) || (same(a.0.as_str(), b.0.as_str())
                && comes_before(a.1.as_str(), b.1.as_str()))
        };
    let ghost given = list@;
    let ordered = sort_stably(list, comes, Ghost(precedes));
    proof {
        sorted_maps(given, precedes, |p: (String, String)| (p.0@, p.1@), pair_order());
        pair_order_is_order();
        sorted_and_deduped(text_pairs(given), pair_order());
    }
    let mut out: Vec<(String, String)> = Vec::new();
    let mut i: usize = 0;
    assert(text_pairs(out@) =~= deduped(text_pairs(ordered@).take(0)));
    while i < ordered.len()
        invariant
            i <= ordered@.len(),
            text_pairs(out@) == deduped(text_pairs(ordered@).take(i as int)),
        decreases ordered@.len() - i,
    {
        let ghost now = text_pairs(ordered@).take(i + 1);
        assert(now.drop_last() =~= text_pairs(ordered@).take(i as int));
        assert(now.last() == (ordered@[i as int].0@, ordered@[i as int].1@));
        let repeats = i > 0 && same(ordered[i].0.as_str(), ordered[i - 1].0.as_str()) && same(
            ordered[i].1.as_str(),
            ordered[i - 1].1.as_str(),
        );
        if i > 0 {
            assert(now[now.len() - 2] == (ordered@[i - 1].0@, ordered@[i - 1].1@));
        }
        if !repeats {
            let ghost so_far = text_pairs(out@);
            out.push((ordered[i].0.clone(), ordered[i].1.clone()));
            assert(text_pairs(out@) =~= so_far.push(now.last()));
            if i == 0 {
                assert(now =~= seq![now.last()]);
                assert(so_far =~= Seq::<(Seq<char>, Seq<char>)>::empty());
            }
        }
        i += 1;
    }
    assert(text_pairs(ordered@).take(ordered@.len() as int) =~= text_pairs(ordered@));
    out
}

} // verus!
