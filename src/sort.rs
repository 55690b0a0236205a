//! Stable insertion sort by a textual key, stated over sequences.

use vstd::prelude::*;

use crate::text::{chars_lt, chars_of, lemma_lex_lt_asymmetric, lemma_lex_lt_total, lemma_lex_lt_transitive, lex_lt};

verus! {

/// `x` inserted before the first entry whose key is greater than its own.
pub open spec fn insert_by<T>(s: Seq<T>, x: T, key: spec_fn(T) -> Seq<char>) -> Seq<T>
    decreases s.len(),
{
    if s.len() == 0 {
        seq![x]
    } else if lex_lt(key(x), key(s[0])) {
        seq![x] + s
    } else {
        seq![s[0]] + insert_by(s.drop_first(), x, key)
    }
}

/// Stable insertion sort: each entry in turn is inserted after every entry
/// already placed whose key is not greater.
pub open spec fn sort_by<T>(s: Seq<T>, key: spec_fn(T) -> Seq<char>) -> Seq<T>
    decreases s.len(),
{
    if s.len() == 0 {
        Seq::empty()
    } else {
        insert_by(sort_by(s.drop_last(), key), s.last(), key)
    }
}

/// Inserting at the first position whose key is greater is `insert_by`.
pub proof fn lemma_insert_at<T>(s: Seq<T>, x: T, j: int, key: spec_fn(T) -> Seq<char>)
    requires
        0 <= j <= s.len(),
        forall|k: int| 0 <= k < j ==> !lex_lt(key(x), #[trigger] key(s[k])),
        j == s.len() || lex_lt(key(x), key(s[j])),
    ensures
        insert_by(s, x, key) == s.insert(j, x),
    decreases j,
{
    if s.len() == 0 {
        assert(s.insert(j, x) =~= seq![x]);
    } else if j == 0 {
        assert(s.insert(j, x) =~= seq![x] + s);
    } else {
        assert(!lex_lt(key(x), key(s[0])));
        assert forall|k: int| 0 <= k < j - 1 implies !lex_lt(key(x), #[trigger] key(s.drop_first()[k])) by {
            assert(s.drop_first()[k] == s[k + 1]);
        }
        lemma_insert_at(s.drop_first(), x, j - 1, key);
        assert(s.insert(j, x) =~= seq![s[0]] + s.drop_first().insert(j - 1, x));
    }
}

pub proof fn lemma_insert_by_len<T>(s: Seq<T>, x: T, key: spec_fn(T) -> Seq<char>)
    ensures
        insert_by(s, x, key).len() == s.len() + 1,
    decreases s.len(),
{
    if s.len() > 0 && !lex_lt(key(x), key(s[0])) {
        lemma_insert_by_len(s.drop_first(), x, key);
    }
}

/// Sorting keeps the number of entries.
pub proof fn lemma_sort_by_len<T>(s: Seq<T>, key: spec_fn(T) -> Seq<char>)
    ensures
        sort_by(s, key).len() == s.len(),
    decreases s.len(),
{
    if s.len() > 0 {
        lemma_sort_by_len(s.drop_last(), key);
        lemma_insert_by_len(sort_by(s.drop_last(), key), s.last(), key);
    }
}

/// Each entry's key is not less than the one before it.
pub open spec fn sorted_by<T>(s: Seq<T>, key: spec_fn(T) -> Seq<char>) -> bool {
    forall|i: int| 0 <= i < s.len() - 1 ==> !lex_lt(key(#[trigger] s[i + 1]), key(s[i]))
}

/// The entries whose key is `k`, in their order.
pub open spec fn with_key<T>(s: Seq<T>, key: spec_fn(T) -> Seq<char>, k: Seq<char>) -> Seq<T> {
    s.filter(key_is(key, k))
}

/// Whether an entry's key is `k`.
pub open spec fn key_is<T>(key: spec_fn(T) -> Seq<char>, k: Seq<char>) -> spec_fn(T) -> bool {
    |x: T| key(x) == k
}

proof fn lemma_le_transitive(a: Seq<char>, b: Seq<char>, c: Seq<char>)
    requires
        !lex_lt(b, a),
        !lex_lt(c, b),
    ensures
        !lex_lt(c, a),
{
    if lex_lt(c, a) {
        if a != b {
            lemma_lex_lt_total(a, b);
            lemma_lex_lt_transitive(c, a, b);
        }
    }
}

proof fn lemma_sorted_above_first<T>(t: Seq<T>, key: spec_fn(T) -> Seq<char>, j: int)
    requires
        sorted_by(t, key),
        0 <= j < t.len(),
    ensures
        !lex_lt(key(t[j]), key(t[0])),
    decreases j,
{
    if j == 0 {
        crate::text::lemma_lex_lt_irreflexive(key(t[0]));
    } else {
        lemma_sorted_above_first(t, key, j - 1);
        assert(!lex_lt(key(t[j - 1 + 1]), key(t[j - 1])));
        lemma_le_transitive(key(t[0]), key(t[j - 1]), key(t[j]));
    }
}

proof fn lemma_insert_by_head<T>(t: Seq<T>, x: T, key: spec_fn(T) -> Seq<char>)
    ensures
        insert_by(t, x, key)[0] == x || (t.len() > 0 && insert_by(t, x, key)[0] == t[0]),
{
}

proof fn lemma_insert_by_sorted<T>(t: Seq<T>, x: T, key: spec_fn(T) -> Seq<char>)
    requires
        sorted_by(t, key),
    ensures
        sorted_by(insert_by(t, x, key), key),
    decreases t.len(),
{
    let r = insert_by(t, x, key);
    if t.len() == 0 {
    } else if lex_lt(key(x), key(t[0])) {
        lemma_lex_lt_asymmetric(key(x), key(t[0]));
        assert forall|i: int| 0 <= i < r.len() - 1 implies !lex_lt(key(#[trigger] r[i + 1]), key(r[i])) by {
            if i > 0 {
                assert(r[i] == t[i - 1] && r[i + 1] == t[i]);
                assert(!lex_lt(key(t[(i - 1) + 1]), key(t[i - 1])));
            }
        }
    } else {
        let rest = t.drop_first();
        assert(sorted_by(rest, key)) by {
            assert forall|i: int| 0 <= i < rest.len() - 1 implies !lex_lt(key(#[trigger] rest[i + 1]), key(rest[i])) by {
                assert(rest[i] == t[i + 1] && rest[i + 1] == t[i + 2]);
                assert(!lex_lt(key(t[(i + 1) + 1]), key(t[i + 1])));
            }
        }
        lemma_insert_by_sorted(rest, x, key);
        lemma_insert_by_head(rest, x, key);
        let tail = insert_by(rest, x, key);
        assert(r == seq![t[0]] + tail);
        assert forall|i: int| 0 <= i < r.len() - 1 implies !lex_lt(key(#[trigger] r[i + 1]), key(r[i])) by {
            if i == 0 {
                assert(r[1] == tail[0]);
                if tail[0] != x {
                    assert(!lex_lt(key(t[0int + 1]), key(t[0int])));
                }
            } else {
                assert(r[i] == tail[i - 1] && r[i + 1] == tail[i]);
                assert(!lex_lt(key(tail[(i - 1) + 1]), key(tail[i - 1])));
            }
        }
    }
}

/// The result of the sort is in order of keys.
pub proof fn lemma_sort_by_sorted<T>(s: Seq<T>, key: spec_fn(T) -> Seq<char>)
    ensures
        sorted_by(sort_by(s, key), key),
    decreases s.len(),
{
    if s.len() > 0 {
        lemma_sort_by_sorted(s.drop_last(), key);
        lemma_insert_by_sorted(sort_by(s.drop_last(), key), s.last(), key);
    }
}

proof fn lemma_filter_none<T>(s: Seq<T>, p: spec_fn(T) -> bool)
    requires
        forall|i: int| 0 <= i < s.len() ==> !p(#[trigger] s[i]),
    ensures
        s.filter(p) == Seq::<T>::empty(),
    decreases s.len(),
{
    reveal(Seq::filter);
    if s.len() > 0 {
        assert forall|i: int| 0 <= i < s.drop_last().len() implies !p(#[trigger] s.drop_last()[i]) by {
            assert(s.drop_last()[i] == s[i]);
        }
        lemma_filter_none(s.drop_last(), p);
        assert(!p(s[s.len() - 1]));
    }
}

proof fn lemma_single_filter<T>(x: T, p: spec_fn(T) -> bool)
    ensures
        seq![x].filter(p) == (if p(x) { seq![x] } else { Seq::<T>::empty() }),
{
    reveal(Seq::filter);
    assert(seq![x].drop_last() =~= Seq::<T>::empty());
    assert(Seq::<T>::empty().filter(p) == Seq::<T>::empty());
    assert(Seq::<T>::empty().push(x) =~= seq![x]);
}

proof fn lemma_insert_by_with_key<T>(t: Seq<T>, x: T, key: spec_fn(T) -> Seq<char>, k: Seq<char>)
    requires
        sorted_by(t, key),
    ensures
        with_key(insert_by(t, x, key), key, k) == if key(x) == k {
            with_key(t, key, k).push(x)
        } else {
            with_key(t, key, k)
        },
    decreases t.len(),
{
    let p = key_is(key, k);
    lemma_single_filter(x, p);
    if t.len() == 0 {
        assert(insert_by(t, x, key) == seq![x]);
        assert(t.filter(p) == Seq::<T>::empty()) by {
            lemma_filter_none(t, p);
        }
        assert(Seq::<T>::empty().push(x) =~= seq![x]);
    } else if lex_lt(key(x), key(t[0])) {
        Seq::filter_distributes_over_add(seq![x], t, p);
        if key(x) == k {
            assert forall|i: int| 0 <= i < t.len() implies !p(#[trigger] t[i]) by {
                lemma_sorted_above_first(t, key, i);
                if key(t[i]) == k {
                    assert(lex_lt(key(t[i]), key(t[0])));
                }
            }
            lemma_filter_none(t, p);
            assert(seq![x] + Seq::<T>::empty() =~= Seq::<T>::empty().push(x));
        } else {
            assert(Seq::<T>::empty() + t.filter(p) =~= t.filter(p));
        }
    } else {
        let rest = t.drop_first();
        assert(sorted_by(rest, key)) by {
            assert forall|i: int| 0 <= i < rest.len() - 1 implies !lex_lt(key(#[trigger] rest[i + 1]), key(rest[i])) by {
                assert(rest[i] == t[i + 1] && rest[i + 1] == t[i + 2]);
                assert(!lex_lt(key(t[(i + 1) + 1]), key(t[i + 1])));
            }
        }
        lemma_insert_by_with_key(rest, x, key, k);
        assert(t =~= seq![t[0]] + rest);
        Seq::filter_distributes_over_add(seq![t[0]], rest, p);
        Seq::filter_distributes_over_add(seq![t[0]], insert_by(rest, x, key), p);
        if key(x) == k {
            assert(seq![t[0]].filter(p) + rest.filter(p).push(x) =~= (seq![t[0]].filter(p) + rest.filter(p)).push(x));
        }
    }
}

/// The sort keeps, for each key, the entries with that key in the order they
/// had before it.
pub proof fn lemma_sort_by_stable<T>(s: Seq<T>, key: spec_fn(T) -> Seq<char>, k: Seq<char>)
    ensures
        with_key(sort_by(s, key), key, k) == with_key(s, key, k),
    decreases s.len(),
{
    reveal(Seq::filter);
    if s.len() > 0 {
        lemma_sort_by_stable(s.drop_last(), key, k);
        lemma_sort_by_sorted(s.drop_last(), key);
        lemma_insert_by_with_key(sort_by(s.drop_last(), key), s.last(), key, k);
    }
}

/// Items that carry a textual name to sort by.
pub trait Named {
    spec fn name_of(&self) -> Seq<char>;

    fn name_text(&self) -> (r: &str)
        ensures
            r@ == self.name_of(),
    ;
}

pub open spec fn by_name<T: Named>() -> spec_fn(T) -> Seq<char> {
    |x: T| x.name_of()
}

/// Sorts items by name, keeping the order of items with equal names.
pub fn sort_items_by_name<T: Named>(items: Vec<T>) -> (r: Vec<T>)
    ensures
        r@ == sort_by(items@, by_name::<T>()),
{
    let ghost input = items@;
    let ghost key = by_name::<T>();
    let mut rest = items;
    let mut sorted: Vec<T> = Vec::new();
    let mut keys: Vec<Vec<char>> = Vec::new();
    let mut i: usize = 0;
    let n = rest.len();
    assert(sorted@ =~= sort_by(input.subrange(0, 0), key));
    while 0 < rest.len()
        invariant
            n == input.len(),
            key == by_name::<T>(),
            i + rest.len() == n,
            rest@ =~= input.subrange(i as int, n as int),
            sorted@ == sort_by(input.subrange(0, i as int), key),
            keys@.len() == sorted@.len(),
            forall|k: int| 0 <= k < keys@.len() ==> #[trigger] keys@[k]@ == sorted@[k].name_of(),
        decreases rest.len(),
    {
        let ghost rest_before = rest@;
        let x = rest.remove(0);
        let name = chars_of(x.name_text());
        let mut j: usize = 0;
        while j < sorted.len() && !chars_lt(&name, &keys[j])
            invariant
                j <= sorted.len(),
                keys@.len() == sorted@.len(),
                forall|k: int| 0 <= k < keys@.len() ==> #[trigger] keys@[k]@ == sorted@[k].name_of(),
                name@ == x.name_of(),
                key == by_name::<T>(),
                forall|k: int| 0 <= k < j ==> !lex_lt(key(x), #[trigger] key(sorted@[k])),
            decreases sorted.len() - j,
        {
            j = j + 1;
        }
        let ghost s_before = sorted@;
        proof {
            lemma_insert_at(s_before, x, j as int, key);
            assert(input.subrange(0, i + 1).drop_last() =~= input.subrange(0, i as int));
            assert(input.subrange(0, i + 1).last() == x);
        }
        let ghost keys_prev = keys@;
        sorted.insert(j, x);
        keys.insert(j, name);
        proof {
            assert forall|k: int| 0 <= k < keys@.len() implies #[trigger] keys@[k]@ == sorted@[k].name_of() by {
                if k < j {
                    assert(keys@[k] == keys_prev[k]);
                } else if k > j {
                    assert(keys@[k] == keys_prev[k - 1]);
                }
            }
        }
        i = i + 1;
    }
    assert(input.subrange(0, n as int) =~= input);
    sorted
}

proof fn lemma_insert_by_map<T, U>(
    t: Seq<T>,
    x: T,
    f: spec_fn(T) -> U,
    k1: spec_fn(T) -> Seq<char>,
    k2: spec_fn(U) -> Seq<char>,
)
    requires
        forall|y: T| #[trigger] k1(y) == k2(f(y)),
    ensures
        insert_by(t, x, k1).map_values(f) == insert_by(t.map_values(f), f(x), k2),
    decreases t.len(),
{
    let tm = t.map_values(f);
    if t.len() == 0 {
        assert(insert_by(t, x, k1).map_values(f) =~= seq![f(x)]);
    } else {
        assert(tm[0] == f(t[0]));
        assert(k1(x) == k2(f(x)) && k1(t[0]) == k2(f(t[0])));
        if lex_lt(k1(x), k1(t[0])) {
            assert((seq![x] + t).map_values(f) =~= seq![f(x)] + tm);
        } else {
            lemma_insert_by_map(t.drop_first(), x, f, k1, k2);
            assert(tm.drop_first() =~= t.drop_first().map_values(f));
            assert((seq![t[0]] + insert_by(t.drop_first(), x, k1)).map_values(f) =~= seq![f(t[0])]
                + insert_by(t.drop_first(), x, k1).map_values(f));
        }
    }
}

/// Sorting commutes with a map that preserves keys.
pub proof fn lemma_sort_by_map<T, U>(
    s: Seq<T>,
    f: spec_fn(T) -> U,
    k1: spec_fn(T) -> Seq<char>,
    k2: spec_fn(U) -> Seq<char>,
)
    requires
        forall|y: T| #[trigger] k1(y) == k2(f(y)),
    ensures
        sort_by(s, k1).map_values(f) == sort_by(s.map_values(f), k2),
    decreases s.len(),
{
    if s.len() > 0 {
        lemma_sort_by_map(s.drop_last(), f, k1, k2);
        lemma_insert_by_map(sort_by(s.drop_last(), k1), s.last(), f, k1, k2);
        assert(s.map_values(f).drop_last() =~= s.drop_last().map_values(f));
        assert(s.map_values(f).last() == f(s.last()));
    }
}

proof fn lemma_insert_by_contains<T>(t: Seq<T>, x: T, key: spec_fn(T) -> Seq<char>, y: T)
    ensures
        insert_by(t, x, key).contains(y) <==> (t.contains(y) || y == x),
    decreases t.len(),
{
    let r = insert_by(t, x, key);
    if t.len() == 0 {
        assert(r == seq![x]);
        if r.contains(y) {
            let i = choose|i: int| 0 <= i < r.len() && r[i] == y;
        }
        assert(r[0] == x);
    } else if lex_lt(key(x), key(t[0])) {
        assert(r == seq![x] + t);
        if r.contains(y) {
            let i = choose|i: int| 0 <= i < r.len() && r[i] == y;
            if i > 0 {
                assert(t[i - 1] == y);
            }
        }
        if t.contains(y) {
            let i = choose|i: int| 0 <= i < t.len() && t[i] == y;
            assert(r[i + 1] == y);
        }
        assert(r[0] == x);
    } else {
        let rest = t.drop_first();
        let tail = insert_by(rest, x, key);
        lemma_insert_by_contains(rest, x, key, y);
        assert(r == seq![t[0]] + tail);
        if r.contains(y) {
            let i = choose|i: int| 0 <= i < r.len() && r[i] == y;
            if i == 0 {
                assert(t[0] == y);
            } else {
                assert(tail[i - 1] == y);
                if rest.contains(y) {
                    let k = choose|k: int| 0 <= k < rest.len() && rest[k] == y;
                    assert(t[k + 1] == y);
                }
            }
        }
        if t.contains(y) {
            let i = choose|i: int| 0 <= i < t.len() && t[i] == y;
            if i == 0 {
                assert(r[0] == y);
            } else {
                assert(rest[i - 1] == y);
                let k = choose|k: int| 0 <= k < tail.len() && tail[k] == y;
                assert(r[k + 1] == y);
            }
        }
        if y == x {
            let k = choose|k: int| 0 <= k < tail.len() && tail[k] == y;
            assert(r[k + 1] == y);
        }
    }
}

/// The sort neither adds nor drops an entry.
pub proof fn lemma_sort_by_contains<T>(s: Seq<T>, key: spec_fn(T) -> Seq<char>, y: T)
    ensures
        sort_by(s, key).contains(y) <==> s.contains(y),
    decreases s.len(),
{
    if s.len() > 0 {
        let prev = s.drop_last();
        lemma_sort_by_contains(prev, key, y);
        lemma_insert_by_contains(sort_by(prev, key), s.last(), key, y);
        if s.contains(y) {
            let i = choose|i: int| 0 <= i < s.len() && s[i] == y;
            if i < s.len() - 1 {
                assert(prev[i] == y);
            }
        }
        if prev.contains(y) {
            let i = choose|i: int| 0 <= i < prev.len() && prev[i] == y;
            assert(s[i] == y);
        }
    }
}

} // verus!
