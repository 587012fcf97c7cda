//! Stable sorting by a key made of a text part and a number part.

use vstd::prelude::*;
use crate::text::{text_less, text_lt, lemma_text_lt_asym, lemma_text_lt_total, lemma_text_lt_trans};
use vstd::relations::injective_on;
use vstd::set_lib::{lemma_int_range, lemma_map_size, lemma_subset_equality, set_int_range};

verus! {

/// A sort key: items are ordered by `text` (code point by code point), then by `num`.
pub struct SortKey {
    pub text: Vec<char>,
    pub num: u64,
}

/// The value of a sort key.
pub open spec fn key_view(k: SortKey) -> (Seq<char>, u64) {
    (k.text@, k.num)
}

/// The values of a sequence of sort keys.
pub open spec fn keys_view(ks: Seq<SortKey>) -> Seq<(Seq<char>, u64)> {
    Seq::new(ks.len(), |i: int| key_view(ks[i]))
}

/// The strict order of keys: by text, then by number.
pub open spec fn key_lt(a: (Seq<char>, u64), b: (Seq<char>, u64)) -> bool {
    text_lt(a.0, b.0) || (a.0 == b.0 && a.1 < b.1)
}

/// `res` is `items` sorted by `keys` without reordering items of equal key:
/// `res[i]` is `items[perm[i]]`, `perm` is a permutation, the keys along `perm`
/// never decrease, and items of equal key keep their relative order.
pub open spec fn is_stable_sort<T>(
    res: Seq<T>,
    items: Seq<T>,
    keys: Seq<(Seq<char>, u64)>,
    perm: Seq<int>,
) -> bool {
    &&& keys.len() == items.len()
    &&& res.len() == items.len()
    &&& perm.len() == items.len()
    &&& forall|i: int| 0 <= i < perm.len() ==> 0 <= #[trigger] perm[i] < items.len() && res[i] == items[perm[i]]
    &&& forall|i: int, j: int| 0 <= i < j < perm.len() ==> perm[i] != perm[j]
    &&& forall|i: int, j: int| 0 <= i < j < perm.len() ==> !key_lt(keys[perm[j]], keys[perm[i]])
    &&& forall|i: int, j: int|
        0 <= i < j < perm.len() && keys[perm[i]] == keys[perm[j]] ==> perm[i] < perm[j]
}

/// `key_lt` is a strict total order.
pub proof fn lemma_key_order(a: (Seq<char>, u64), b: (Seq<char>, u64), c: (Seq<char>, u64))
    ensures
        !key_lt(a, a),
        key_lt(a, b) ==> !key_lt(b, a),
        a != b ==> key_lt(a, b) || key_lt(b, a),
        key_lt(a, b) && key_lt(b, c) ==> key_lt(a, c),
        !key_lt(b, a) && !key_lt(c, b) ==> !key_lt(c, a),
{
    lemma_text_lt_asym(a.0, b.0);
    lemma_text_lt_asym(b.0, c.0);
    lemma_text_lt_asym(a.0, c.0);
    lemma_text_lt_asym(c.0, a.0);
    lemma_text_lt_total(a.0, b.0);
    lemma_text_lt_total(b.0, c.0);
    lemma_text_lt_total(a.0, c.0);
    if text_lt(a.0, b.0) && text_lt(b.0, c.0) {
        lemma_text_lt_trans(a.0, b.0, c.0);
    }
    if text_lt(c.0, a.0) && text_lt(a.0, b.0) {
        lemma_text_lt_trans(c.0, a.0, b.0);
    }
    if text_lt(b.0, c.0) && text_lt(c.0, a.0) {
        lemma_text_lt_trans(b.0, c.0, a.0);
    }
}

/// A sequence of distinct positions below its length reaches every position.
pub proof fn lemma_perm_onto(perm: Seq<int>)
    requires
        forall|i: int| 0 <= i < perm.len() ==> 0 <= #[trigger] perm[i] < perm.len(),
        forall|i: int, j: int| 0 <= i < j < perm.len() ==> perm[i] != perm[j],
    ensures
        forall|k: int| 0 <= k < perm.len() ==> #[trigger] perm.contains(k),
{
    let n = perm.len() as int;
    let dom = set_int_range(0, n);
    let f = |i: int| perm[i];
    let img = dom.map(f);
    lemma_int_range(0, n);
    assert(injective_on(f, dom)) by {
        assert forall|x1: int, x2: int| dom.contains(x1) && dom.contains(x2) && #[trigger] f(x1) == #[trigger] f(x2)
            implies x1 == x2 by {
            if x1 < x2 {
                assert(perm[x1] != perm[x2]);
            } else if x2 < x1 {
                assert(perm[x2] != perm[x1]);
            }
        }
    }
    lemma_map_size(dom, img, f);
    assert(img.subset_of(dom)) by {
        assert forall|y: int| img.contains(y) implies dom.contains(y) by {
            let x = choose|x: int| dom.contains(x) && y == f(x);
            assert(0 <= perm[x] < n);
        }
    }
    lemma_subset_equality(img, dom);
    assert forall|k: int| 0 <= k < perm.len() implies #[trigger] perm.contains(k) by {
        assert(dom.contains(k));
        assert(img.contains(k));
        let x = choose|x: int| dom.contains(x) && k == f(x);
        assert(perm[x] == k);
    }
}

/// Whether key `a` comes strictly before key `b`.
pub fn key_less(a: &SortKey, b: &SortKey) -> (r: bool)
    ensures
        r == key_lt(key_view(*a), key_view(*b)),
{
    if text_less(&a.text, &b.text) {
        true
    } else if text_less(&b.text, &a.text) {
        proof { lemma_text_lt_asym(a.text@, b.text@); }
        false
    } else {
        proof { lemma_text_lt_total(a.text@, b.text@); }
        a.num < b.num
    }
}

/// Inserting a key after all keys not above it and before all keys above it
/// keeps a sorted, stable arrangement sorted and stable.
proof fn lemma_insert_step(
    kvo: Seq<(Seq<char>, u64)>,
    perm: Seq<int>,
    p: int,
    key: (Seq<char>, u64),
    k: int,
)
    requires
        kvo.len() == perm.len(),
        0 <= p <= kvo.len(),
        forall|i: int, j: int| 0 <= i < j < kvo.len() ==> !key_lt(kvo[j], kvo[i]),
        forall|i: int, j: int| 0 <= i < j < kvo.len() && kvo[i] == kvo[j] ==> perm[i] < perm[j],
        forall|i: int| 0 <= i < perm.len() ==> perm[i] < k,
        forall|j: int| p <= j < kvo.len() ==> key_lt(key, kvo[j]),
        p > 0 ==> !key_lt(key, kvo[p - 1]),
    ensures
        forall|i: int, j: int|
            0 <= i < j < kvo.len() + 1 ==> !key_lt(kvo.insert(p, key)[j], kvo.insert(p, key)[i]),
        forall|i: int, j: int|
            0 <= i < j < kvo.len() + 1 && kvo.insert(p, key)[i] == kvo.insert(p, key)[j]
                ==> perm.insert(p, k)[i] < perm.insert(p, k)[j],
{
    let nk = kvo.insert(p, key);
    let np = perm.insert(p, k);
    assert forall|i: int| 0 <= i < p implies !key_lt(key, kvo[i]) by {
        lemma_key_order(kvo[i], kvo[p - 1], key);
    }
    assert forall|i: int, j: int| 0 <= i < j < kvo.len() + 1 implies !key_lt(nk[j], nk[i]) by {
        if i == p {
            lemma_key_order(key, kvo[j - 1], key);
        } else if j == p {
            lemma_key_order(kvo[i], key, key);
        } else if i < p && p < j {
            lemma_key_order(kvo[i], key, kvo[j - 1]);
            lemma_key_order(kvo[j - 1], kvo[i], key);
        }
    }
    assert forall|i: int, j: int|
        0 <= i < j < kvo.len() + 1 && nk[i] == nk[j] implies np[i] < np[j] by {
        if j == p {
            assert(np[i] == perm[i]);
        } else if i == p {
            lemma_key_order(key, key, key);
        } else if i < p && p < j {
            lemma_key_order(kvo[j - 1], key, key);
            lemma_key_order(key, kvo[j - 1], key);
        }
    }
}

/// Sorts `items` by `keys`, keeping items of equal key in their original order.
pub fn stable_sort<T>(items: Vec<T>, keys: Vec<SortKey>) -> (r: Vec<T>)
    requires
        items@.len() == keys@.len(),
    ensures
        exists|perm: Seq<int>| is_stable_sort(r@, items@, keys_view(keys@), perm),
{
    let ghost orig = items@;
    let ghost kv = keys_view(keys@);
    let mut items = items;
    let mut keys = keys;
    let n = items.len();
    let mut out: Vec<T> = Vec::new();
    let mut out_keys: Vec<SortKey> = Vec::new();
    let ghost mut perm: Seq<int> = Seq::empty();
    let mut k: usize = 0;
    while k < n
        invariant
            n == orig.len(),
            kv.len() == n,
            k <= n,
            items@ == orig.subrange(k as int, n as int),
            keys_view(keys@) == kv.subrange(k as int, n as int),
            keys@.len() == n - k,
            out@.len() == k,
            out_keys@.len() == k,
            perm.len() == k,
            forall|i: int| 0 <= i < k ==> 0 <= #[trigger] perm[i] < k && out@[i] == orig[perm[i]]
                && key_view(out_keys@[i]) == kv[perm[i]],
            forall|i: int, j: int| 0 <= i < j < k ==> perm[i] != perm[j],
            forall|i: int, j: int| 0 <= i < j < k ==> !key_lt(keys_view(out_keys@)[j], keys_view(out_keys@)[i]),
            forall|i: int, j: int|
                0 <= i < j < k && keys_view(out_keys@)[i] == keys_view(out_keys@)[j] ==> perm[i] < perm[j],
        decreases n - k,
    {
        let ghost old_keys = keys@;
        let item = items.remove(0);
        let key = keys.remove(0);
        assert(item == orig[k as int]);
        assert(key_view(key) == keys_view(old_keys)[0]);
        assert(key_view(key) == kv[k as int]);
        assert(keys_view(keys@) =~= kv.subrange(k + 1, n as int)) by {
            assert forall|i: int| 0 <= i < keys@.len() implies keys_view(keys@)[i] == kv.subrange(k + 1, n as int)[i] by {
                assert(keys@[i] == old_keys[i + 1]);
                assert(keys_view(old_keys)[i + 1] == kv.subrange(k as int, n as int)[i + 1]);
            }
        }
        let mut p: usize = out.len();
        while p > 0 && key_less(&key, &out_keys[p - 1])
            invariant
                p <= k,
                out_keys@.len() == k,
                forall|j: int| p <= j < k ==> key_lt(key_view(key), keys_view(out_keys@)[j]),
            decreases p,
        {
            p = p - 1;
        }
        let ghost kvo = keys_view(out_keys@);
        proof {
            lemma_insert_step(kvo, perm, p as int, key_view(key), k as int);
        }
        out.insert(p, item);
        out_keys.insert(p, key);
        proof {
            assert(keys_view(out_keys@) =~= kvo.insert(p as int, key_view(key)));
            perm = perm.insert(p as int, k as int);
        }
        k = k + 1;
    }
    let ghost ko = keys_view(out_keys@);
    assert forall|i: int| 0 <= i < n implies ko[i] == kv[perm[i]] by {}
    assert forall|i: int, j: int| 0 <= i < j < perm.len() implies !key_lt(kv[perm[j]], kv[perm[i]]) by {
        assert(ko[i] == kv[perm[i]]);
        assert(ko[j] == kv[perm[j]]);
    }
    assert forall|i: int, j: int|
        0 <= i < j < perm.len() && kv[perm[i]] == kv[perm[j]] implies perm[i] < perm[j] by {
        assert(ko[i] == kv[perm[i]]);
        assert(ko[j] == kv[perm[j]]);
    }
    assert(is_stable_sort(out@, orig, kv, perm));
    out
}

/// The items of `v` in reverse order.
pub fn reversed<T>(v: Vec<T>) -> (r: Vec<T>)
    ensures
        r@ == v@.reverse(),
{
    let ghost orig = v@;
    let mut v = v;
    let mut r: Vec<T> = Vec::new();
    while v.len() > 0
        invariant
            v@.len() + r@.len() == orig.len(),
            v@ == orig.take(v@.len() as int),
            r@ == orig.skip(v@.len() as int).reverse(),
        decreases v@.len(),
    {
        let ghost before = v@.len();
        let x = v.pop().unwrap();
        r.push(x);
        assert(v@ =~= orig.take(v@.len() as int));
        assert(r@ =~= orig.skip(v@.len() as int).reverse());
    }
    assert(orig.skip(0) =~= orig);
    r
}

} // verus!
