use vstd::prelude::*;
use crate::text::chars_of;

verus! {

/// Whether text `a` comes strictly before text `b` in the order of std's `String`
/// comparison: character by character by code point, a proper prefix first.
pub open spec fn text_lt(a: Seq<char>, b: Seq<char>) -> bool
    decreases a.len(),
{
    if a.len() == 0 {
        b.len() > 0
    } else if b.len() == 0 {
        false
    } else if a[0] != b[0] {
        (a[0] as u32) < (b[0] as u32)
    } else {
        text_lt(a.drop_first(), b.drop_first())
    }
}

/// Whether text `a` comes before text `b` or equals it.
pub open spec fn text_le(a: Seq<char>, b: Seq<char>) -> bool {
    a == b || text_lt(a, b)
}

/// Whether `a` comes before or equals `b`, comparing the characters of two texts.
pub fn chars_le(a: &Vec<char>, b: &Vec<char>) -> (r: bool)
    ensures
        r == text_le(a@, b@),
{
    let n = if a.len() < b.len() { a.len() } else { b.len() };
    let mut i: usize = 0;
    while i < n
        invariant
            0 <= i <= n,
            n <= a@.len(),
            n <= b@.len(),
            n == a@.len() || n == b@.len(),
            a@.subrange(0, i as int) == b@.subrange(0, i as int),
        decreases n - i,
    {
        if a[i] != b[i] {
            proof {
                lemma_text_lt_at(a@, b@, i as int);
            }
            return (a[i] as u32) < (b[i] as u32);
        }
        proof {
            assert(a@.subrange(0, i as int + 1) =~= a@.subrange(0, i as int).push(a@[i as int]));
            assert(b@.subrange(0, i as int + 1) =~= b@.subrange(0, i as int).push(b@[i as int]));
        }
        i = i + 1;
    }
    proof {
        lemma_text_le_common_prefix(a@, b@, n as int);
    }
    a.len() <= b.len()
}

proof fn lemma_text_lt_at(a: Seq<char>, b: Seq<char>, i: int)
    requires
        0 <= i < a.len(),
        i < b.len(),
        a.subrange(0, i) == b.subrange(0, i),
        a[i] != b[i],
    ensures
        text_lt(a, b) == ((a[i] as u32) < (b[i] as u32)),
        a != b,
    decreases i,
{
    if i > 0 {
        assert(a[0] == a.subrange(0, i)[0]);
        assert(b[0] == b.subrange(0, i)[0]);
        assert(a.drop_first().subrange(0, i - 1) =~= a.subrange(0, i).drop_first());
        assert(b.drop_first().subrange(0, i - 1) =~= b.subrange(0, i).drop_first());
        lemma_text_lt_at(a.drop_first(), b.drop_first(), i - 1);
        assert(a.drop_first() != b.drop_first());
    }
}

proof fn lemma_text_le_common_prefix(a: Seq<char>, b: Seq<char>, n: int)
    requires
        0 <= n,
        n <= a.len(),
        n <= b.len(),
        n == a.len() || n == b.len(),
        a.subrange(0, n) == b.subrange(0, n),
    ensures
        text_le(a, b) == (a.len() <= b.len()),
    decreases n,
{
    if n == 0 {
        if a.len() == 0 && b.len() == 0 {
            assert(a =~= b);
        }
    } else {
        assert(a[0] == a.subrange(0, n)[0]);
        assert(b[0] == b.subrange(0, n)[0]);
        assert(a.drop_first().subrange(0, n - 1) =~= a.subrange(0, n).drop_first());
        assert(b.drop_first().subrange(0, n - 1) =~= b.subrange(0, n).drop_first());
        lemma_text_le_common_prefix(a.drop_first(), b.drop_first(), n - 1);
        if a.drop_first() == b.drop_first() {
            assert forall|i: int| 0 <= i < a.len() implies a[i] == b[i] by {
                if i > 0 {
                    assert(a[i] == a.drop_first()[i - 1]);
                    assert(b[i] == b.drop_first()[i - 1]);
                }
            }
            assert(a =~= b);
        } else if a == b {
            assert(a.drop_first() =~= b.drop_first());
        }
    }
}

/// The key texts of a list of keyed items.
pub open spec fn keys_of<T>(s: Seq<(Seq<char>, T)>) -> Seq<Seq<char>> {
    s.map_values(|p: (Seq<char>, T)| p.0)
}

/// Inserts an item into a list sorted by key, after every item whose key comes
/// before or equals its own.
pub open spec fn insert_by_key<T>(s: Seq<(Seq<char>, T)>, x: (Seq<char>, T)) -> Seq<(Seq<char>, T)>
    decreases s.len(),
{
    if s.len() == 0 {
        seq![x]
    } else if text_le(s.last().0, x.0) {
        s.push(x)
    } else {
        insert_by_key(s.drop_last(), x).push(s.last())
    }
}

/// A list sorted by key the way std's stable `sort_by` orders it: by key text,
/// items with equal keys in their original order.
pub open spec fn stable_sort_by_key<T>(s: Seq<(Seq<char>, T)>) -> Seq<(Seq<char>, T)>
    decreases s.len(),
{
    if s.len() == 0 {
        s
    } else {
        insert_by_key(stable_sort_by_key(s.drop_last()), s.last())
    }
}

proof fn lemma_insert_at<T>(s: Seq<(Seq<char>, T)>, x: (Seq<char>, T), j: int)
    requires
        0 <= j <= s.len(),
        j == 0 || text_le(s[j - 1].0, x.0),
        forall|k: int| j <= k < s.len() ==> !text_le(#[trigger] s[k].0, x.0),
    ensures
        insert_by_key(s, x) == s.insert(j, x),
    decreases s.len(),
{
    if s.len() == 0 {
        assert(s.insert(j, x) =~= seq![x]);
    } else if j == s.len() {
        assert(s.insert(j, x) =~= s.push(x));
    } else {
        lemma_insert_at(s.drop_last(), x, j);
        assert(s.insert(j, x) =~= s.drop_last().insert(j, x).push(s.last()));
    }
}

/// The keys of keyed items as texts, with their payloads.
pub open spec fn keyed<T>(v: Seq<(String, T)>) -> Seq<(Seq<char>, T)> {
    v.map_values(|p: (String, T)| (p.0@, p.1))
}

/// Sorts keyed items by key, stably (items with equal keys keep their order).
pub fn sort_by_key<T>(items: Vec<(String, T)>) -> (r: Vec<(String, T)>)
    ensures
        keyed(r@) == stable_sort_by_key(keyed(items@)),
{
    let mut sorted: Vec<(String, T)> = Vec::new();
    let mut keys: Vec<Vec<char>> = Vec::new();
    let mut rest = items;
    let ghost all = rest@;
    let mut taken: usize = 0;
    let total = rest.len();
    while rest.len() > 0
        invariant
            total == all.len(),
            taken + rest@.len() == all.len(),
            rest@ == all.subrange(taken as int, all.len() as int),
            keyed(sorted@) == stable_sort_by_key(keyed(all.take(taken as int))),
            keys@.len() == sorted@.len(),
            forall|k: int| 0 <= k < keys@.len() ==> (#[trigger] keys@[k])@ == sorted@[k].0@,
        decreases rest@.len(),
    {
        let x = rest.remove(0);
        proof {
            assert(x == all[taken as int]);
            assert(keyed(all.take(taken as int + 1)).drop_last() =~= keyed(all.take(taken as int)));
            assert(keyed(all.take(taken as int + 1)).last() == (x.0@, x.1));
            assert(rest@ =~= all.subrange(taken as int + 1, all.len() as int));
        }
        let xk = chars_of(x.0.as_str());
        let mut j = sorted.len();
        while j > 0 && !chars_le(&keys[j - 1], &xk)
            invariant
                0 <= j <= sorted@.len(),
                keys@.len() == sorted@.len(),
                forall|k: int| 0 <= k < keys@.len() ==> (#[trigger] keys@[k])@ == sorted@[k].0@,
                xk@ == x.0@,
                forall|k: int| j <= k < sorted@.len() ==> !text_le(#[trigger] sorted@[k].0@, x.0@),
            decreases j,
        {
            j = j - 1;
        }
        proof {
            let ks = keyed(sorted@);
            if j > 0 {
                assert(keys@[j - 1]@ == sorted@[j - 1].0@);
                assert(ks[j - 1].0 == sorted@[j - 1].0@);
            }
            assert forall|k: int| j <= k < ks.len() implies !text_le(#[trigger] ks[k].0, x.0@) by {
                assert(ks[k].0 == sorted@[k].0@);
            }
            lemma_insert_at(ks, (x.0@, x.1), j as int);
        }
        let ghost before = sorted@;
        sorted.insert(j, x);
        keys.insert(j, xk);
        taken = taken + 1;
        proof {
            assert(keyed(sorted@) =~= keyed(before).insert(j as int, (x.0@, x.1)));
            assert forall|k: int| 0 <= k < keys@.len() implies (#[trigger] keys@[k])@ == sorted@[k].0@ by {
                if k < j {
                } else if k == j {
                } else {
                    assert(keys@[k] == old_keys_at(keys@, k));
                }
            }
        }
    }
    proof {
        assert(all.take(all.len() as int) =~= all);
    }
    sorted
}

spec fn old_keys_at(k: Seq<Vec<char>>, i: int) -> Vec<char> {
    k[i]
}

proof fn lemma_text_lt_transitive(a: Seq<char>, b: Seq<char>, c: Seq<char>)
    requires
        text_lt(a, b),
        text_lt(b, c),
    ensures
        text_lt(a, c),
    decreases a.len(),
{
    if a.len() > 0 && b.len() > 0 && c.len() > 0 {
        if a[0] == b[0] && b[0] == c[0] {
            lemma_text_lt_transitive(a.drop_first(), b.drop_first(), c.drop_first());
        }
    }
}

proof fn lemma_text_lt_total(a: Seq<char>, b: Seq<char>)
    ensures
        a == b || text_lt(a, b) || text_lt(b, a),
        !(text_lt(a, b) && text_lt(b, a)),
        !text_lt(a, a),
    decreases a.len(),
{
    if a.len() > 0 && b.len() > 0 {
        lemma_text_lt_total(a.drop_first(), b.drop_first());
        if a[0] == b[0] && a.drop_first() == b.drop_first() {
            assert forall|i: int| 0 <= i < a.len() implies a[i] == b[i] by {
                if i > 0 {
                    assert(a[i] == a.drop_first()[i - 1]);
                    assert(b[i] == b.drop_first()[i - 1]);
                }
            }
            assert(a =~= b);
        }
        if a[0] != b[0] && a[0] as u32 == b[0] as u32 {
            vstd::utf8::char_u32_cast(a[0], a[0] as u32);
            vstd::utf8::char_u32_cast(b[0], b[0] as u32);
        }
    } else if a.len() == 0 && b.len() == 0 {
        assert(a =~= b);
    }
    lemma_text_lt_irreflexive(a);
}

proof fn lemma_text_lt_irreflexive(a: Seq<char>)
    ensures
        !text_lt(a, a),
    decreases a.len(),
{
    if a.len() > 0 {
        lemma_text_lt_irreflexive(a.drop_first());
    }
}

proof fn lemma_text_le_transitive(a: Seq<char>, b: Seq<char>, c: Seq<char>)
    requires
        text_le(a, b),
        text_le(b, c),
    ensures
        text_le(a, c),
{
    if text_lt(a, b) && text_lt(b, c) {
        lemma_text_lt_transitive(a, b, c);
    }
}

/// Whether a list of texts is in order.
pub open spec fn texts_sorted(k: Seq<Seq<char>>) -> bool {
    forall|i: int, j: int| 0 <= i < j < k.len() ==> text_le(#[trigger] k[i], #[trigger] k[j])
}

proof fn lemma_insert_keeps_order<T>(s: Seq<(Seq<char>, T)>, x: (Seq<char>, T))
    requires
        texts_sorted(keys_of(s)),
    ensures
        texts_sorted(keys_of(insert_by_key(s, x))),
        insert_by_key(s, x).to_multiset() == s.to_multiset().insert(x),
        forall|k: int|
            0 <= k < insert_by_key(s, x).len() ==> (text_le(#[trigger] insert_by_key(s, x)[k].0, x.0) || text_le(x.0, insert_by_key(s, x)[k].0)),
    decreases s.len(),
{
    broadcast use Seq::to_multiset_ensures;
    let r = insert_by_key(s, x);
    s.to_multiset_ensures();
    if s.len() == 0 {
        assert(r =~= s.push(x));
    } else if text_le(s.last().0, x.0) {
        assert forall|i: int, j: int| 0 <= i < j < r.len() implies text_le(#[trigger] keys_of(r)[i], #[trigger] keys_of(r)[j]) by {
            if j == r.len() - 1 {
                if i < s.len() - 1 {
                    assert(text_le(keys_of(s)[i], keys_of(s)[s.len() - 1]));
                    lemma_text_le_transitive(keys_of(s)[i], s.last().0, x.0);
                }
            } else {
                assert(keys_of(r)[i] == keys_of(s)[i]);
                assert(keys_of(r)[j] == keys_of(s)[j]);
            }
        }
        assert forall|k: int| 0 <= k < r.len() implies (text_le(#[trigger] r[k].0, x.0) || text_le(x.0, r[k].0)) by {
            lemma_text_lt_total(r[k].0, x.0);
        }
    } else {
        let p = s.drop_last();
        assert(texts_sorted(keys_of(p))) by {
            assert forall|i: int, j: int| 0 <= i < j < keys_of(p).len() implies text_le(#[trigger] keys_of(p)[i], #[trigger] keys_of(p)[j]) by {
                assert(keys_of(p)[i] == keys_of(s)[i]);
                assert(keys_of(p)[j] == keys_of(s)[j]);
            }
        }
        lemma_insert_keeps_order(p, x);
        let q = insert_by_key(p, x);
        q.to_multiset_ensures();
        p.to_multiset_ensures();
        assert(r == q.push(s.last()));
        lemma_text_lt_total(s.last().0, x.0);
        assert(text_lt(x.0, s.last().0));
        assert(q.to_multiset().contains(x));
        assert forall|k: int| 0 <= k < q.len() implies text_le(#[trigger] q[k].0, s.last().0) by {
            assert(q.contains(q[k]));
            assert(q.to_multiset().count(q[k]) > 0);
            if q[k] == x {
                lemma_text_lt_total(x.0, s.last().0);
            } else {
                assert(p.to_multiset().insert(x).count(q[k]) > 0);
                assert(p.to_multiset().count(q[k]) > 0);
                assert(p.contains(q[k]));
                let m = choose|m: int| 0 <= m < p.len() && p[m] == q[k];
                assert(keys_of(s)[m] == q[k].0);
                assert(text_le(keys_of(s)[m], keys_of(s)[s.len() - 1]));
            }
        }
        assert forall|i: int, j: int| 0 <= i < j < r.len() implies text_le(#[trigger] keys_of(r)[i], #[trigger] keys_of(r)[j]) by {
            if j == r.len() - 1 {
                assert(keys_of(r)[i] == q[i].0);
            } else {
                assert(keys_of(r)[i] == keys_of(q)[i]);
                assert(keys_of(r)[j] == keys_of(q)[j]);
            }
        }
        assert forall|k: int| 0 <= k < r.len() implies (text_le(#[trigger] r[k].0, x.0) || text_le(x.0, r[k].0)) by {
            lemma_text_lt_total(r[k].0, x.0);
        }
        assert(s =~= p.push(s.last()));
        assert(r.to_multiset() =~= s.to_multiset().insert(x));
    }
}

/// Sorting by key puts the keys in order and keeps every item exactly as often as
/// it was there.
pub proof fn lemma_stable_sort_by_key_sorts<T>(s: Seq<(Seq<char>, T)>)
    ensures
        texts_sorted(keys_of(stable_sort_by_key(s))),
        stable_sort_by_key(s).to_multiset() == s.to_multiset(),
    decreases s.len(),
{
    broadcast use Seq::to_multiset_ensures;
    if s.len() == 0 {
    } else {
        lemma_stable_sort_by_key_sorts(s.drop_last());
        lemma_insert_keeps_order(stable_sort_by_key(s.drop_last()), s.last());
        s.drop_last().to_multiset_ensures();
        assert(s =~= s.drop_last().push(s.last()));
    }
}

} // verus!
