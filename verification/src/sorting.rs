//! Stable sorting by keys, with keys compared lexicographically.
//! Text is sorted by the code points of its characters (the order of `str`'s `Ord`),
//! sizes in descending order by the key `u64::MAX - size`.
use vstd::prelude::*;

verus! {

/// Lexicographic order on sequences of numbers (a proper prefix comes first).
pub open spec fn lex_less(a: Seq<u64>, b: Seq<u64>) -> bool
    decreases a.len(),
{
    if a.len() == 0 {
        b.len() > 0
    } else if b.len() == 0 {
        false
    } else if a[0] != b[0] {
        a[0] < b[0]
    } else {
        lex_less(a.drop_first(), b.drop_first())
    }
}

pub proof fn lemma_lex_irreflexive(a: Seq<u64>)
    ensures
        !lex_less(a, a),
    decreases a.len(),
{
    if a.len() > 0 {
        lemma_lex_irreflexive(a.drop_first());
    }
}

pub proof fn lemma_lex_transitive(a: Seq<u64>, b: Seq<u64>, c: Seq<u64>)
    requires
        lex_less(a, b),
        lex_less(b, c),
    ensures
        lex_less(a, c),
    decreases a.len(),
{
    if a.len() > 0 && b.len() > 0 && c.len() > 0 && a[0] == b[0] && b[0] == c[0] {
        lemma_lex_transitive(a.drop_first(), b.drop_first(), c.drop_first());
    }
}

pub proof fn lemma_lex_total(a: Seq<u64>, b: Seq<u64>)
    ensures
        a == b || lex_less(a, b) || lex_less(b, a),
    decreases a.len(),
{
    if a.len() > 0 && b.len() > 0 && a[0] == b[0] {
        lemma_lex_total(a.drop_first(), b.drop_first());
        if a.drop_first() == b.drop_first() {
            assert(a =~= seq![a[0]] + a.drop_first());
            assert(b =~= seq![b[0]] + b.drop_first());
        }
    }
}

pub proof fn lemma_lex_asymmetric(a: Seq<u64>, b: Seq<u64>)
    requires
        lex_less(a, b),
    ensures
        !lex_less(b, a),
{
    if lex_less(b, a) {
        lemma_lex_transitive(a, b, a);
        lemma_lex_irreflexive(a);
    }
}

/// The key sequences of a vector of keys.
pub open spec fn key_views(keys: Seq<Vec<u64>>) -> Seq<Seq<u64>> {
    keys.map_values(|k: Vec<u64>| k@)
}

/// Item `i` comes before item `j`: smaller key, or equal keys and `i` earlier.
pub open spec fn comes_before(keys: Seq<Seq<u64>>, i: int, j: int) -> bool {
    lex_less(keys[i], keys[j]) || (keys[i] == keys[j] && i < j)
}

/// `order` lists every position of `keys` once, ordered by key, equal keys
/// keeping their original order: the order in which a stable sort puts them.
pub open spec fn is_stable_order(keys: Seq<Seq<u64>>, order: Seq<int>) -> bool {
    &&& order.len() == keys.len()
    &&& forall|i: int| 0 <= i < order.len() ==> 0 <= #[trigger] order[i] < keys.len()
    &&& forall|i: int, j: int|
        0 <= i < j < order.len() ==> comes_before(keys, #[trigger] order[i], #[trigger] order[j])
}

/// `items` rearranged by `order`.
pub open spec fn arranged<T>(items: Seq<T>, order: Seq<int>) -> Seq<T> {
    order.map_values(|k: int| items[k])
}

/// Whether `a` comes before `b` in lexicographic order.
pub fn lex_less_exec(a: &Vec<u64>, b: &Vec<u64>) -> (r: bool)
    ensures
        r == lex_less(a@, b@),
{
    let mut i: usize = 0;
    assert(a@.subrange(0, a@.len() as int) =~= a@);
    assert(b@.subrange(0, b@.len() as int) =~= b@);
    while i < a.len() && i < b.len()
        invariant
            i <= a.len(),
            i <= b.len(),
            lex_less(a@, b@) == lex_less(a@.subrange(i as int, a@.len() as int), b@.subrange(i as int, b@.len() as int)),
        decreases a.len() - i,
    {
        let ghost sa = a@.subrange(i as int, a@.len() as int);
        let ghost sb = b@.subrange(i as int, b@.len() as int);
        assert(sa[0] == a@[i as int]);
        assert(sb[0] == b@[i as int]);
        if a[i] != b[i] {
            return a[i] < b[i];
        }
        assert(sa.drop_first() =~= a@.subrange(i + 1, a@.len() as int));
        assert(sb.drop_first() =~= b@.subrange(i + 1, b@.len() as int));
        i = i + 1;
    }
    i < b.len()
}

/// Sorts `items` by `keys` (one key per item), keeping items with equal keys in
/// their original order.
pub fn stable_sort_by_keys<T>(items: Vec<T>, keys: Vec<Vec<u64>>) -> (out: Vec<T>)
    requires
        items.len() == keys.len(),
    ensures
        exists|order: Seq<int>|
            is_stable_order(key_views(keys@), order) && out@ == arranged(items@, order),
{
    let ghost all_items = items@;
    let ghost kv = key_views(keys@);
    let n = items.len();
    let mut rest = items;
    let mut rest_keys = keys;
    let mut out: Vec<T> = Vec::new();
    let mut out_keys: Vec<Vec<u64>> = Vec::new();
    let ghost mut order: Seq<int> = Seq::empty();
    let mut k: usize = 0;
    while k < n
        invariant
            k <= n,
            n == all_items.len(),
            n == kv.len(),
            rest@ == all_items.subrange(k as int, n as int),
            key_views(rest_keys@) == kv.subrange(k as int, n as int),
            order.len() == k,
            out@.len() == k,
            out_keys@.len() == k,
            forall|i: int| 0 <= i < k ==> 0 <= #[trigger] order[i] < k,
            forall|i: int| 0 <= i < k ==> out@[i] == all_items[#[trigger] order[i]],
            forall|i: int| 0 <= i < k ==> out_keys@[i]@ == kv[#[trigger] order[i]],
            forall|i: int, j: int|
                0 <= i < j < k ==> comes_before(kv, #[trigger] order[i], #[trigger] order[j]),
        decreases n - k,
    {
        assert(rest@[0] == all_items[k as int]);
        assert(key_views(rest_keys@)[0] == kv[k as int]);
        assert(rest_keys@.len() == key_views(rest_keys@).len());
        let ghost old_rest_keys = rest_keys@;
        let x = rest.remove(0);
        let xk = rest_keys.remove(0);
        assert(rest@ =~= all_items.subrange(k + 1, n as int));
        assert forall|i: int| 0 <= i < rest_keys@.len() implies key_views(rest_keys@)[i] == kv.subrange(k + 1, n as int)[i] by {
            assert(rest_keys@[i] == old_rest_keys[i + 1]);
            assert(key_views(old_rest_keys)[i + 1] == kv.subrange(k as int, n as int)[i + 1]);
        }
        assert(key_views(rest_keys@) =~= kv.subrange(k + 1, n as int));
        let mut pos: usize = 0;
        while pos < out_keys.len() && !lex_less_exec(&xk, &out_keys[pos])
            invariant
                pos <= out_keys@.len(),
                out_keys@.len() == k,
                forall|i: int| 0 <= i < pos ==> !lex_less(xk@, #[trigger] out_keys@[i]@),
            decreases out_keys@.len() - pos,
        {
            pos = pos + 1;
        }
        proof {
            let kk = k as int;
            assert forall|i: int| 0 <= i < pos implies comes_before(kv, #[trigger] order[i], kk) by {
                assert(!lex_less(xk@, out_keys@[i]@));
                lemma_lex_total(kv[order[i]], kv[kk]);
            }
            if pos < k {
                assert(lex_less(xk@, out_keys@[pos as int]@));
                assert forall|j: int| pos <= j < k implies comes_before(kv, kk, #[trigger] order[j]) by {
                    if j > pos {
                        assert(comes_before(kv, order[pos as int], order[j]));
                        if lex_less(kv[order[pos as int]], kv[order[j]]) {
                            lemma_lex_transitive(kv[kk], kv[order[pos as int]], kv[order[j]]);
                        }
                    }
                }
            }
        }
        let ghost old_order = order;
        let ghost old_out = out@;
        let ghost old_keys = out_keys@;
        out.insert(pos, x);
        out_keys.insert(pos, xk);
        proof {
            order = old_order.insert(pos as int, k as int);
            assert forall|i: int| 0 <= i < k + 1 implies out@[i] == all_items[#[trigger] order[i]] by {
                if i < pos {
                    assert(out@[i] == old_out[i]);
                } else if i > pos {
                    assert(out@[i] == old_out[i - 1]);
                }
            }
            assert forall|i: int| 0 <= i < k + 1 implies out_keys@[i]@ == kv[#[trigger] order[i]] by {
                if i < pos {
                    assert(out_keys@[i] == old_keys[i]);
                } else if i > pos {
                    assert(out_keys@[i] == old_keys[i - 1]);
                }
            }
            assert forall|i: int, j: int| 0 <= i < j < k + 1 implies comes_before(
                kv,
                #[trigger] order[i],
                #[trigger] order[j],
            ) by {
                if j < pos {
                    assert(order[i] == old_order[i] && order[j] == old_order[j]);
                } else if j == pos {
                    assert(order[i] == old_order[i]);
                } else if i < pos {
                    assert(order[i] == old_order[i] && order[j] == old_order[j - 1]);
                } else if i == pos {
                    assert(order[j] == old_order[j - 1]);
                } else {
                    assert(order[i] == old_order[i - 1] && order[j] == old_order[j - 1]);
                }
            }
        }
        k = k + 1;
    }
    proof {
        assert(is_stable_order(kv, order));
        assert(out@ =~= arranged(all_items, order));
    }
    out
}

} // verus!

verus! {

proof fn lemma_comes_before_asymmetric(keys: Seq<Seq<u64>>, a: int, b: int)
    requires
        comes_before(keys, a, b),
    ensures
        !comes_before(keys, b, a),
        a != b,
{
    if lex_less(keys[a], keys[b]) {
        lemma_lex_asymmetric(keys[a], keys[b]);
        if keys[b] == keys[a] {
            lemma_lex_irreflexive(keys[a]);
        }
    } else {
        if lex_less(keys[b], keys[a]) {
            lemma_lex_irreflexive(keys[a]);
        }
    }
}

/// A stable order lists every position exactly once.
pub proof fn lemma_stable_order_covers(keys: Seq<Seq<u64>>, order: Seq<int>)
    requires
        is_stable_order(keys, order),
    ensures
        order.no_duplicates(),
        forall|x: int| 0 <= x < keys.len() ==> order.contains(x),
{
    assert(order.no_duplicates()) by {
        assert forall|i: int, j: int| 0 <= i < order.len() && 0 <= j < order.len() && i != j implies order[i]
            != order[j] by {
            if i < j {
                lemma_comes_before_asymmetric(keys, order[i], order[j]);
            } else {
                lemma_comes_before_asymmetric(keys, order[j], order[i]);
            }
        }
    }
    order.unique_seq_to_set();
    let range = vstd::set_lib::set_int_range(0, keys.len() as int);
    vstd::set_lib::lemma_int_range(0, keys.len() as int);
    assert(order.to_set().subset_of(range)) by {
        assert forall|x: int| order.to_set().contains(x) implies range.contains(x) by {
            let k = choose|k: int| 0 <= k < order.len() && order[k] == x;
            assert(0 <= order[k] < keys.len());
        }
    }
    vstd::seq_lib::seq_to_set_is_finite(order);
    vstd::set_lib::lemma_subset_equality(order.to_set(), range);
    assert forall|x: int| 0 <= x < keys.len() implies order.contains(x) by {
        assert(range.contains(x));
        assert(order.to_set().contains(x));
    }
}

/// There is only one stable order for given keys.
pub proof fn lemma_stable_order_unique(keys: Seq<Seq<u64>>, o1: Seq<int>, o2: Seq<int>)
    requires
        is_stable_order(keys, o1),
        is_stable_order(keys, o2),
    ensures
        o1 == o2,
{
    lemma_stable_order_covers(keys, o1);
    lemma_stable_order_covers(keys, o2);
    assert forall|i: int| 0 <= i < o1.len() implies o1[i] == o2[i] by {
        lemma_stable_order_prefix(keys, o1, o2, i);
    }
    assert(o1 =~= o2);
}

proof fn lemma_stable_order_prefix(keys: Seq<Seq<u64>>, o1: Seq<int>, o2: Seq<int>, i: int)
    requires
        is_stable_order(keys, o1),
        is_stable_order(keys, o2),
        o1.no_duplicates(),
        o2.no_duplicates(),
        forall|x: int| 0 <= x < keys.len() ==> o1.contains(x),
        forall|x: int| 0 <= x < keys.len() ==> o2.contains(x),
        0 <= i < o1.len(),
    ensures
        o1[i] == o2[i],
    decreases i,
{
    if i > 0 {
        lemma_stable_order_prefix(keys, o1, o2, i - 1);
    }
    assert forall|j: int| 0 <= j < i implies o1[j] == o2[j] by {
        lemma_stable_order_prefix(keys, o1, o2, j);
    }
    let a = o1[i];
    let b = o2[i];
    if a != b {
        assert(o1.contains(b));
        let p = choose|p: int| 0 <= p < o1.len() && o1[p] == b;
        assert(o2.contains(a));
        let q = choose|q: int| 0 <= q < o2.len() && o2[q] == a;
        if p < i {
            assert(o2[p] == b);
        }
        if q < i {
            assert(o1[q] == a);
        }
        assert(p > i);
        assert(q > i);
        assert(comes_before(keys, a, b));
        assert(comes_before(keys, b, a));
        lemma_comes_before_asymmetric(keys, a, b);
    }
}

/// Sorting stably by keys has one outcome: any two stable arrangements of the
/// same items by the same keys are equal.
pub proof fn law_stable_sort_determined<T>(items: Seq<T>, keys: Seq<Seq<u64>>, o1: Seq<int>, o2: Seq<int>)
    requires
        is_stable_order(keys, o1),
        is_stable_order(keys, o2),
    ensures
        arranged(items, o1) == arranged(items, o2),
{
    lemma_stable_order_unique(keys, o1, o2);
}

} // verus!
