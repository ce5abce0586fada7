//! Selecting and searching in sequences.
use crate::text::{list_has, same, views};
use vstd::prelude::*;

verus! {

/// The items of `s` for which `p` holds, in order.
pub open spec fn kept<T>(s: Seq<T>, p: spec_fn(T) -> bool) -> Seq<T>
    decreases s.len(),
{
    if s.len() == 0 {
        Seq::empty()
    } else if p(s.last()) {
        kept(s.drop_last(), p).push(s.last())
    } else {
        kept(s.drop_last(), p)
    }
}

/// One item more is kept where `p` holds of it.
pub proof fn kept_next<T>(s: Seq<T>, p: spec_fn(T) -> bool, i: int)
    requires
        0 <= i < s.len(),
    ensures
        kept(s.take(i + 1), p) == if p(s[i]) {
            kept(s.take(i), p).push(s[i])
        } else {
            kept(s.take(i), p)
        },
        kept(s.take(i), p).len() <= i,
    decreases i,
{
    assert(s.take(i + 1).drop_last() =~= s.take(i));
    if i > 0 {
        kept_next(s, p, i - 1);
    } else {
        assert(s.take(0) =~= Seq::<T>::empty());
    }
}

/// Everything is taken when all items are.
pub proof fn kept_all<T>(s: Seq<T>, p: spec_fn(T) -> bool)
    ensures
        kept(s.take(s.len() as int), p) == kept(s, p),
        kept(s, p).len() <= s.len(),
        kept(s.take(0), p) == Seq::<T>::empty(),
{
    assert(s.take(s.len() as int) =~= s);
    assert(s.take(0) =~= Seq::<T>::empty());
    if s.len() > 0 {
        kept_next(s, p, s.len() - 1);
    }
}

/// What is kept was there and satisfies the condition.
pub proof fn kept_satisfies<T>(s: Seq<T>, p: spec_fn(T) -> bool)
    ensures
        forall|i: int|
            0 <= i < kept(s, p).len() ==> p(#[trigger] kept(s, p)[i]) && s.contains(kept(s, p)[i]),
        forall|x: T| s.contains(x) && p(x) ==> #[trigger] kept(s, p).contains(x),
    decreases s.len(),
{
    if s.len() > 0 {
        let t = s.drop_last();
        kept_satisfies(t, p);
        let k = kept(t, p);
        let r = kept(s, p);
        assert forall|i: int| 0 <= i < r.len() implies p(#[trigger] r[i]) && s.contains(r[i]) by {
            if i < k.len() {
                assert(r[i] == k[i]);
                let m = choose|m: int| 0 <= m < t.len() && t[m] == k[i];
                assert(s[m] == r[i]);
            } else {
                assert(s[s.len() - 1] == r[i]);
            }
        }
        assert forall|x: T| s.contains(x) && p(x) implies #[trigger] r.contains(x) by {
            let m = choose|m: int| 0 <= m < s.len() && s[m] == x;
            if m < t.len() {
                assert(t[m] == x);
                assert(k.contains(x));
                let w = choose|w: int| 0 <= w < k.len() && k[w] == x;
                assert(r[w] == x);
            } else {
                assert(r[r.len() - 1] == x);
            }
        }
    }
}

/// The first position at or after `from` whose item satisfies `p`.
pub open spec fn first_where<T>(s: Seq<T>, p: spec_fn(T) -> bool, from: int) -> Option<int>
    decreases s.len() - from,
{
    if from < 0 || from >= s.len() {
        None
    } else if p(s[from]) {
        Some(from)
    } else {
        first_where(s, p, from + 1)
    }
}

/// The first position is the first.
pub proof fn first_where_is_first<T>(s: Seq<T>, p: spec_fn(T) -> bool, from: int)
    requires
        0 <= from,
    ensures
        first_where(s, p, from) matches Some(i) ==> from <= i < s.len() && p(s[i]) && forall|j: int|
            from <= j < i ==> !p(#[trigger] s[j]),
        first_where(s, p, from) is None ==> forall|j: int|
            from <= j < s.len() ==> !p(#[trigger] s[j]),
    decreases s.len() - from,
{
    if from < s.len() && !p(s[from]) {
        first_where_is_first(s, p, from + 1);
    }
}

/// What `f` gives for the items of `s`, in order, where it gives something.
pub open spec fn collected<T, U>(s: Seq<T>, f: spec_fn(T) -> Option<U>) -> Seq<U>
    decreases s.len(),
{
    if s.len() == 0 {
        Seq::empty()
    } else {
        match f(s.last()) {
            Some(u) => collected(s.drop_last(), f).push(u),
            None => collected(s.drop_last(), f),
        }
    }
}

/// One item more is collected where `f` gives something for it.
pub proof fn collected_next<T, U>(s: Seq<T>, f: spec_fn(T) -> Option<U>, i: int)
    requires
        0 <= i < s.len(),
    ensures
        collected(s.take(i + 1), f) == match f(s[i]) {
            Some(u) => collected(s.take(i), f).push(u),
            None => collected(s.take(i), f),
        },
{
    assert(s.take(i + 1).drop_last() =~= s.take(i));
}

/// Everything is collected when all items are.
pub proof fn collected_all<T, U>(s: Seq<T>, f: spec_fn(T) -> Option<U>)
    ensures
        collected(s.take(s.len() as int), f) == collected(s, f),
        collected(s.take(0), f) == Seq::<U>::empty(),
{
    assert(s.take(s.len() as int) =~= s);
    assert(s.take(0) =~= Seq::<T>::empty());
}

/// The sum of what `f` gives for the items of `s`, or the largest number where
/// it does not fit.
pub open spec fn total32<T>(s: Seq<T>, f: spec_fn(T) -> u32) -> u32
    decreases s.len(),
{
    if s.len() == 0 {
        0
    } else {
        let sum = total32(s.drop_last(), f) + f(s.last());
        if sum <= u32::MAX {
            sum as u32
        } else {
            u32::MAX
        }
    }
}

/// `s` turned so that the item at `k` comes first.
pub open spec fn rotated<T>(s: Seq<T>, k: int) -> Seq<T> {
    s.skip(k) + s.take(k)
}

/// Turning loses and invents nothing.
pub proof fn rotated_is_permutation<T>(s: Seq<T>, k: int)
    requires
        0 <= k <= s.len(),
    ensures
        rotated(s, k).to_multiset() =~= s.to_multiset(),
        rotated(s, k).len() == s.len(),
{
    vstd::seq_lib::lemma_multiset_commutative(s.skip(k), s.take(k));
    vstd::seq_lib::lemma_multiset_commutative(s.take(k), s.skip(k));
    assert(s =~= s.take(k) + s.skip(k));
}

/// A sum of lengths that stays at the largest number where it does not fit.
pub open spec fn capped_sum(lengths: Seq<nat>) -> nat
    decreases lengths.len(),
{
    if lengths.len() == 0 {
        0
    } else {
        let sum = capped_sum(lengths.drop_last()) + lengths.last();
        if sum <= usize::MAX {
            sum
        } else {
            usize::MAX as nat
        }
    }
}

/// What a function makes of each item, one after the other.
pub open spec fn flat<T, U>(s: Seq<T>, f: spec_fn(T) -> Seq<U>) -> Seq<U>
    decreases s.len(),
{
    if s.len() == 0 {
        Seq::empty()
    } else {
        flat(s.drop_last(), f) + f(s.last())
    }
}

pub proof fn flat_next<T, U>(s: Seq<T>, f: spec_fn(T) -> Seq<U>, i: int)
    requires
        0 <= i < s.len(),
    ensures
        flat(s.take(i + 1), f) == flat(s.take(i), f) + f(s[i]),
{
    assert(s.take(i + 1).drop_last() =~= s.take(i));
    assert(s.take(i + 1).last() == s[i]);
}

pub proof fn flat_all<T, U>(s: Seq<T>, f: spec_fn(T) -> Seq<U>)
    ensures
        flat(s.take(s.len() as int), f) == flat(s, f),
        flat(s.take(0), f) == Seq::<U>::empty(),
{
    assert(s.take(s.len() as int) =~= s);
}

/// What a function gives for an item is collected.
pub proof fn collected_has<T, U>(s: Seq<T>, f: spec_fn(T) -> Option<U>, i: int)
    requires
        0 <= i < s.len(),
        f(s[i]) is Some,
    ensures
        collected(s, f).contains(f(s[i])->0),
    decreases s.len(),
{
    let r = collected(s, f);
    if i == s.len() - 1 {
        assert(r[r.len() - 1] == f(s[i])->0);
    } else {
        assert(s.drop_last()[i] == s[i]);
        collected_has(s.drop_last(), f, i);
        let e = collected(s.drop_last(), f);
        let w = choose|w: int| 0 <= w < e.len() && e[w] == f(s[i])->0;
        assert(r[w] == e[w]);
    }
}

/// What is collected, a function gave for an item.
pub proof fn collected_from<T, U>(s: Seq<T>, f: spec_fn(T) -> Option<U>, u: U)
    requires
        collected(s, f).contains(u),
    ensures
        exists|i: int| 0 <= i < s.len() && f(#[trigger] s[i]) == Some(u),
    decreases s.len(),
{
    let r = collected(s, f);
    if s.len() > 0 {
        let e = collected(s.drop_last(), f);
        let w = choose|w: int| 0 <= w < r.len() && r[w] == u;
        if w < e.len() {
            assert(e[w] == u);
            assert(e.contains(u));
            collected_from(s.drop_last(), f, u);
            let i = choose|i: int|
                0 <= i < s.drop_last().len() && f(#[trigger] s.drop_last()[i]) == Some(u);
            assert(s[i] == s.drop_last()[i]);
        } else {
            assert(f(s[s.len() - 1]) == Some(u));
        }
    }
}

/// What a function makes of an item is among what it makes of all.
pub proof fn flat_has<T, U>(s: Seq<T>, f: spec_fn(T) -> Seq<U>, i: int, u: U)
    requires
        0 <= i < s.len(),
        f(s[i]).contains(u),
    ensures
        flat(s, f).contains(u),
    decreases s.len(),
{
    let before = flat(s.drop_last(), f);
    let last = f(s.last());
    if i == s.len() - 1 {
        let w = choose|w: int| 0 <= w < last.len() && last[w] == u;
        assert((before + last)[before.len() + w] == u);
    } else {
        assert(s.drop_last()[i] == s[i]);
        flat_has(s.drop_last(), f, i, u);
        let w = choose|w: int| 0 <= w < before.len() && before[w] == u;
        assert((before + last)[w] == u);
    }
}

/// What is among all that a function makes, it made of an item.
pub proof fn flat_from<T, U>(s: Seq<T>, f: spec_fn(T) -> Seq<U>, u: U)
    requires
        flat(s, f).contains(u),
    ensures
        exists|i: int| 0 <= i < s.len() && f(#[trigger] s[i]).contains(u),
    decreases s.len(),
{
    if s.len() > 0 {
        let before = flat(s.drop_last(), f);
        let last = f(s.last());
        let w = choose|w: int| 0 <= w < (before + last).len() && (before + last)[w] == u;
        if w < before.len() {
            assert(before[w] == u);
            flat_from(s.drop_last(), f, u);
            let i = choose|i: int|
                0 <= i < s.drop_last().len() && f(#[trigger] s.drop_last()[i]).contains(u);
            assert(s[i] == s.drop_last()[i]);
        } else {
            assert(last[w - before.len()] == u);
            assert(f(s[s.len() - 1]).contains(u));
        }
    }
}

/// What stands under a name is the value of the first entry of that name.
pub proof fn named_in_is_first<V>(list: Seq<(String, V)>, name: Seq<char>, i: int)
    requires
        0 <= i < list.len(),
        list[i].0@ == name,
        forall|j: int| 0 <= j < i ==> (#[trigger] list[j]).0@ != name,
    ensures
        named_in(list, name) == Some(list[i].1),
    decreases list.len(),
{
    if i > 0 {
        assert(list[0].0@ != name);
        let rest = list.subrange(1, list.len() as int);
        assert forall|j: int| 0 <= j < i - 1 implies (#[trigger] rest[j]).0@ != name by {
            assert(rest[j] == list[j + 1]);
        }
        named_in_is_first(rest, name, i - 1);
    }
}

/// Nothing stands under a name that no entry has.
pub proof fn named_in_nowhere<V>(list: Seq<(String, V)>, name: Seq<char>)
    requires
        forall|j: int| 0 <= j < list.len() ==> (#[trigger] list[j]).0@ != name,
    ensures
        named_in(list, name) is None,
    decreases list.len(),
{
    if list.len() > 0 {
        assert(list[0].0@ != name);
        let rest = list.subrange(1, list.len() as int);
        assert forall|j: int| 0 <= j < rest.len() implies (#[trigger] rest[j]).0@ != name by {
            assert(rest[j] == list[j + 1]);
        }
        named_in_nowhere(rest, name);
    }
}

/// The value that stands first under a name in a list of named values.
pub open spec fn named_in<V>(list: Seq<(String, V)>, name: Seq<char>) -> Option<V>
    decreases list.len(),
{
    if list.len() == 0 {
        None
    } else if list[0].0@ == name {
        Some(list[0].1)
    } else {
        named_in(list.subrange(1, list.len() as int), name)
    }
}

/// The value that stands first under a name in a list of named values.
pub fn lookup<'a, V>(list: &'a Vec<(String, V)>, name: &str) -> (r: Option<&'a V>)
    ensures
        match r {
            Some(v) => named_in(list@, name@) == Some(*v),
            None => named_in(list@, name@) is None,
        },
{
    let mut i: usize = 0;
    assert(list@.subrange(0, list@.len() as int) =~= list@);
    while i < list.len()
        invariant
            i <= list@.len(),
            named_in(list@, name@) == named_in(
                list@.subrange(i as int, list@.len() as int),
                name@,
            ),
        decreases list@.len() - i,
    {
        let ghost rest = list@.subrange(i as int, list@.len() as int);
        assert(rest[0] == list@[i as int]);
        assert(rest.subrange(1, rest.len() as int) =~= list@.subrange(
            i + 1,
            list@.len() as int,
        ));
        if same(list[i].0.as_str(), name) {
            return Some(&list[i].1);
        }
        i += 1;
    }
    None
}

/// What stands under the names of a list where one place is set anew, and no
/// place before it has that name.
proof fn named_in_set<V>(list: Seq<(String, V)>, i: int, entry: (String, V), q: Seq<char>)
    requires
        0 <= i < list.len(),
        list[i].0@ == entry.0@,
        forall|j: int| 0 <= j < i ==> (#[trigger] list[j]).0@ != entry.0@,
    ensures
        named_in(list.update(i, entry), q) == if q == entry.0@ {
            Some(entry.1)
        } else {
            named_in(list, q)
        },
    decreases list.len(),
{
    let after = list.update(i, entry);
    let rest = list.subrange(1, list.len() as int);
    let rest_after = after.subrange(1, after.len() as int);
    if i == 0 {
        assert(rest_after =~= rest);
    } else {
        assert(rest_after =~= rest.update(i - 1, entry));
        assert(after[0] == list[0]);
        assert forall|j: int| 0 <= j < i - 1 implies (#[trigger] rest[j]).0@ != entry.0@ by {
            assert(rest[j] == list[j + 1]);
        }
        named_in_set(rest, i - 1, entry, q);
    }
}

/// What stands under the names of a list with one entry more at its end.
proof fn named_in_push<V>(list: Seq<(String, V)>, entry: (String, V), q: Seq<char>)
    requires
        forall|j: int| 0 <= j < list.len() ==> (#[trigger] list[j]).0@ != entry.0@,
    ensures
        named_in(list.push(entry), q) == if q == entry.0@ {
            Some(entry.1)
        } else {
            named_in(list, q)
        },
    decreases list.len(),
{
    let after = list.push(entry);
    let rest_after = after.subrange(1, after.len() as int);
    if list.len() == 0 {
        assert(rest_after =~= Seq::<(String, V)>::empty());
    } else {
        let rest = list.subrange(1, list.len() as int);
        assert(after[0] == list[0]);
        assert(rest_after =~= rest.push(entry));
        assert forall|j: int| 0 <= j < rest.len() implies (#[trigger] rest[j]).0@ != entry.0@ by {
            assert(rest[j] == list[j + 1]);
        }
        named_in_push(rest, entry, q);
    }
}

/// Sets the value that stands under a name, at the end of the list where the
/// name is new.
pub fn put_named<V>(list: &mut Vec<(String, V)>, name: &str, value: V)
    ensures
        forall|q: Seq<char>| #[trigger]
            named_in(final(list)@, q) == if q == name@ {
                Some(value)
            } else {
                named_in(old(list)@, q)
            },
{
    let mut i: usize = 0;
    while i < list.len()
        invariant
            i <= list@.len(),
            *list == *old(list),
            forall|j: int| 0 <= j < i ==> (#[trigger] list@[j]).0@ != name@,
        decreases list@.len() - i,
    {
        if same(list[i].0.as_str(), name) {
            let entry = (name.to_owned(), value);
            list.set(i, entry);
            proof {
                assert forall|q: Seq<char>| #[trigger] named_in(list@, q) == if q == name@ {
                    Some(value)
                } else {
                    named_in(old(list)@, q)
                } by {
                    named_in_set(old(list)@, i as int, entry, q);
                }
            }
            return ;
        }
        i += 1;
    }
    let entry = (name.to_owned(), value);
    list.push(entry);
    proof {
        assert forall|q: Seq<char>| #[trigger] named_in(list@, q) == if q == name@ {
            Some(value)
        } else {
            named_in(old(list)@, q)
        } by {
            named_in_push(old(list)@, entry, q);
        }
    }
}

/// The items of `s`, each where it comes first.
pub open spec fn firsts<T>(s: Seq<T>) -> Seq<T>
    decreases s.len(),
{
    if s.len() == 0 {
        Seq::empty()
    } else if s.drop_last().contains(s.last()) {
        firsts(s.drop_last())
    } else {
        firsts(s.drop_last()).push(s.last())
    }
}

/// What is held stays held, and nothing is held twice.
pub proof fn firsts_are_distinct<T>(s: Seq<T>)
    ensures
        firsts(s).no_duplicates(),
        forall|x: T| #[trigger] firsts(s).contains(x) <==> s.contains(x),
    decreases s.len(),
{
    if s.len() > 0 {
        let t = s.drop_last();
        firsts_are_distinct(t);
        let f = firsts(t);
        assert forall|x: T| #[trigger] firsts(s).contains(x) <==> s.contains(x) by {
            assert(f.contains(x) <==> t.contains(x));
            if s.contains(x) {
                let k = choose|k: int| 0 <= k < s.len() && s[k] == x;
                if k < t.len() {
                    assert(t[k] == x);
                    let m = choose|m: int| 0 <= m < f.len() && f[m] == x;
                    assert(firsts(s)[m] == x);
                } else if !t.contains(x) {
                    assert(firsts(s)[f.len() as int] == x);
                }
            }
            if firsts(s).contains(x) {
                let m = choose|m: int| 0 <= m < firsts(s).len() && firsts(s)[m] == x;
                if m < f.len() {
                    assert(f[m] == x);
                    let k = choose|k: int| 0 <= k < t.len() && t[k] == x;
                    assert(s[k] == x);
                } else {
                    assert(s[s.len() - 1] == x);
                }
            }
        }
        assert(f.contains(s.last()) <==> t.contains(s.last()));
    }
}

/// Taking one item more.
pub proof fn firsts_next<T>(s: Seq<T>, i: int)
    requires
        0 <= i < s.len(),
    ensures
        firsts(s.take(i + 1)) == if firsts(s.take(i)).contains(s[i]) {
            firsts(s.take(i))
        } else {
            firsts(s.take(i)).push(s[i])
        },
{
    assert(s.take(i + 1).drop_last() =~= s.take(i));
    firsts_are_distinct(s.take(i));
}

/// The strings of a list, each where it comes first.
pub fn distinct_strings(list: &Vec<String>) -> (r: Vec<String>)
    ensures
        views(r@) == firsts(views(list@)),
{
    let ghost all = views(list@);
    let mut out: Vec<String> = Vec::new();
    let mut i: usize = 0;
    assert(all.take(0) =~= Seq::<Seq<char>>::empty());
    assert(views(out@) =~= firsts(all.take(0)));
    while i < list.len()
        invariant
            i <= list@.len(),
            all == views(list@),
            views(out@) == firsts(all.take(i as int)),
        decreases list@.len() - i,
    {
        proof {
            firsts_next(all, i as int);
            assert(all[i as int] == list@[i as int]@);
        }
        if !list_has(&out, list[i].as_str()) {
            let ghost before = views(out@);
            out.push(list[i].clone());
            assert(views(out@) =~= before.push(list@[i as int]@));
        }
        i += 1;
    }
    assert(all.take(list@.len() as int) =~= all);
    out
}

} // verus!
