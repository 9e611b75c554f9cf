//! Lists in order: the stable order of items by a key of two texts, a number and a text.
use vstd::prelude::*;

use crate::text;

verus! {

/// Whether one text sorts before another: by code point, a prefix before what it starts.
pub open spec fn text_before(a: Seq<char>, b: Seq<char>) -> bool
    decreases a.len(),
{
    if b.len() == 0 {
        false
    } else if a.len() == 0 {
        true
    } else if a[0] != b[0] {
        a[0] < b[0]
    } else {
        text_before(a.skip(1), b.skip(1))
    }
}

/// Whether one text sorts before another.
pub fn is_text_before(a: &str, b: &str) -> (r: bool)
    ensures
        r == text_before(a@, b@),
{
    let v = text::chars_of(a);
    let w = text::chars_of(b);
    let mut i: usize = 0;
    assert(v@.skip(0) =~= v@ && w@.skip(0) =~= w@);
    while i < v.len() && i < w.len()
        invariant
            i <= v@.len(),
            i <= w@.len(),
            v@ == a@,
            w@ == b@,
            text_before(a@, b@) == text_before(v@.skip(i as int), w@.skip(i as int)),
        decreases v@.len() - i,
    {
        if v[i] != w[i] {
            return v[i] < w[i];
        }
        assert(v@.skip(i as int).skip(1) =~= v@.skip(i + 1));
        assert(w@.skip(i as int).skip(1) =~= w@.skip(i + 1));
        i += 1;
    }
    i < w.len()
}

/// No text sorts before itself.
pub proof fn law_text_order_is_strict(a: Seq<char>)
    ensures
        !text_before(a, a),
    decreases a.len(),
{
    if a.len() > 0 {
        law_text_order_is_strict(a.skip(1));
    }
}

/// Of two different texts one sorts before the other.
pub proof fn law_text_order_is_total(a: Seq<char>, b: Seq<char>)
    ensures
        a == b || text_before(a, b) || text_before(b, a),
    decreases a.len(),
{
    if a.len() == 0 || b.len() == 0 {
        if a.len() == 0 && b.len() == 0 {
            assert(a =~= b);
        }
    } else if a[0] == b[0] {
        law_text_order_is_total(a.skip(1), b.skip(1));
        if a.skip(1) == b.skip(1) {
            assert(a =~= seq![a[0]] + a.skip(1));
            assert(b =~= seq![b[0]] + b.skip(1));
        }
    }
}

/// What sorts before a text that sorts before a third sorts before the third.
pub proof fn law_text_order_is_transitive(a: Seq<char>, b: Seq<char>, c: Seq<char>)
    requires
        text_before(a, b),
        text_before(b, c),
    ensures
        text_before(a, c),
    decreases a.len(),
{
    if a.len() > 0 && b.len() > 0 && a[0] == b[0] && b[0] == c[0] {
        law_text_order_is_transitive(a.skip(1), b.skip(1), c.skip(1));
    }
}

/// What an item is ordered by: the first text, then the second, then the number, then the last
/// text.
pub struct SortKey {
    pub first: String,
    pub second: String,
    pub number: u32,
    pub last: String,
}

/// A [`SortKey`] with its texts as sequences of characters.
pub struct KeyView {
    pub first: Seq<char>,
    pub second: Seq<char>,
    pub number: int,
    pub last: Seq<char>,
}

impl View for SortKey {
    type V = KeyView;

    open spec fn view(&self) -> KeyView {
        KeyView { first: self.first@, second: self.second@, number: self.number as int, last: self.last@ }
    }
}

/// Whether one key sorts before another.
pub open spec fn key_before(a: KeyView, b: KeyView) -> bool {
    ||| text_before(a.first, b.first)
    ||| a.first == b.first && text_before(a.second, b.second)
    ||| a.first == b.first && a.second == b.second && a.number < b.number
    ||| a.first == b.first && a.second == b.second && a.number == b.number && text_before(a.last, b.last)
}

fn is_key_before(a: &SortKey, b: &SortKey) -> (r: bool)
    ensures
        r == key_before(a@, b@),
{
    if !text::same(&a.first, &b.first) {
        is_text_before(&a.first, &b.first)
    } else if !text::same(&a.second, &b.second) {
        proof {
            law_text_order_is_strict(a.first@);
        }
        is_text_before(&a.second, &b.second)
    } else {
        proof {
            law_text_order_is_strict(a.first@);
            law_text_order_is_strict(a.second@);
        }
        a.number < b.number || (a.number == b.number && is_text_before(&a.last, &b.last))
    }
}

proof fn lemma_text_order(a: Seq<char>, b: Seq<char>, c: Seq<char>)
    ensures
        !text_before(a, a),
        a == b || text_before(a, b) || text_before(b, a),
        !(text_before(a, b) && text_before(b, a)),
        text_before(a, b) && text_before(b, c) ==> text_before(a, c),
{
    law_text_order_is_strict(a);
    law_text_order_is_total(a, b);
    if text_before(a, b) && text_before(b, c) {
        law_text_order_is_transitive(a, b, c);
    }
    if text_before(a, b) && text_before(b, a) {
        law_text_order_is_transitive(a, b, a);
    }
}

proof fn lemma_key_order(a: KeyView, b: KeyView, c: KeyView)
    ensures
        !key_before(a, a),
        a == b || key_before(a, b) || key_before(b, a),
        !(key_before(a, b) && key_before(b, a)),
        key_before(a, b) && key_before(b, c) ==> key_before(a, c),
{
    lemma_text_order(a.first, b.first, c.first);
    lemma_text_order(a.second, b.second, c.second);
    lemma_text_order(a.last, b.last, c.last);
}

/// A key that is not before another and has another second text has its texts in front behind.
pub(crate) proof fn lemma_front(a: KeyView, b: KeyView)
    requires
        !key_before(b, a),
        a.second != b.second,
    ensures
        text_before(a.first, b.first) || (a.first == b.first && text_before(a.second, b.second)),
{
    lemma_text_order(a.first, b.first, a.first);
    lemma_text_order(a.second, b.second, a.second);
}

/// The texts in front of keys are in order as the keys are.
pub(crate) proof fn lemma_fronts(a: KeyView, b: KeyView, c: KeyView)
    requires
        text_before(a.first, b.first) || (a.first == b.first && text_before(a.second, b.second)),
        text_before(b.first, c.first) || (b.first == c.first && text_before(b.second, c.second)),
    ensures
        text_before(a.first, c.first) || (a.first == c.first && text_before(a.second, c.second)),
{
    lemma_text_order(a.first, b.first, c.first);
    lemma_text_order(a.second, b.second, c.second);
}

/// Of two keys, one at most is before the other.
pub(crate) proof fn lemma_one_way(a: KeyView, b: KeyView)
    ensures
        !(key_before(a, b) && key_before(b, a)),
        !key_before(a, a),
{
    lemma_key_order(a, b, a);
}

/// Whether item `i` comes before item `j` in a list ordered by `keys`: by key, and where the
/// keys are the same, as the items came.
pub open spec fn comes_before(keys: Seq<KeyView>, i: int, j: int) -> bool {
    key_before(keys[i], keys[j]) || (keys[i] == keys[j] && i < j)
}

proof fn lemma_comes_before(keys: Seq<KeyView>, i: int, j: int)
    ensures
        i == j || comes_before(keys, i, j) || comes_before(keys, j, i),
        !(comes_before(keys, i, j) && comes_before(keys, j, i)),
{
    lemma_key_order(keys[i], keys[j], keys[i]);
}

/// Whether `idx` lists the kept items in the order of their keys: each of them once, and
/// nothing else.
pub open spec fn in_order(keys: Seq<KeyView>, keep: Seq<bool>, idx: Seq<int>) -> bool {
    &&& forall|k: int| 0 <= k < idx.len() ==> 0 <= #[trigger] idx[k] < keep.len() && keep[idx[k]]
    &&& forall|i: int| 0 <= i < keep.len() && #[trigger] keep[i] ==> idx.contains(i)
    &&& forall|a: int, b: int| 0 <= a < b < idx.len() ==> comes_before(keys, #[trigger] idx[a], #[trigger] idx[b])
}

proof fn lemma_orders_agree(keys: Seq<KeyView>, keep: Seq<bool>, x: Seq<int>, y: Seq<int>, k: int)
    requires
        in_order(keys, keep, x),
        in_order(keys, keep, y),
        0 <= k < x.len(),
        k < y.len(),
        forall|j: int| 0 <= j < k ==> x[j] == y[j],
    ensures
        x[k] == y[k],
{
    assert(keep[x[k]] && keep[y[k]]);
    let m = choose|m: int| 0 <= m < y.len() && y[m] == x[k];
    let n = choose|n: int| 0 <= n < x.len() && x[n] == y[k];
    if m < k {
        assert(x[m] == x[k]);
        lemma_key_order(keys[x[m]], keys[x[k]], keys[x[k]]);
        assert(false);
    }
    if n < k {
        assert(y[n] == y[k]);
        lemma_key_order(keys[y[n]], keys[y[k]], keys[y[k]]);
        assert(false);
    }
    if m > k && n > k {
        assert(comes_before(keys, y[k], y[m]));
        assert(comes_before(keys, x[k], x[n]));
        lemma_comes_before(keys, x[k], y[k]);
    }
}

/// There is only one such list.
pub proof fn law_one_order(keys: Seq<KeyView>, keep: Seq<bool>, x: Seq<int>, y: Seq<int>)
    requires
        in_order(keys, keep, x),
        in_order(keys, keep, y),
    ensures
        x == y,
{
    lemma_agree_up_to(keys, keep, x, y, if x.len() < y.len() { x.len() } else { y.len() });
    lemma_no_longer(keys, keep, x, y);
    lemma_no_longer(keys, keep, y, x);
    assert(x =~= y);
}

proof fn lemma_agree_up_to(keys: Seq<KeyView>, keep: Seq<bool>, x: Seq<int>, y: Seq<int>, n: nat)
    requires
        in_order(keys, keep, x),
        in_order(keys, keep, y),
        n <= x.len(),
        n <= y.len(),
    ensures
        forall|j: int| 0 <= j < n ==> x[j] == y[j],
    decreases n,
{
    if n > 0 {
        lemma_agree_up_to(keys, keep, x, y, (n - 1) as nat);
        lemma_orders_agree(keys, keep, x, y, n - 1);
    }
}

proof fn lemma_no_longer(keys: Seq<KeyView>, keep: Seq<bool>, x: Seq<int>, y: Seq<int>)
    requires
        in_order(keys, keep, x),
        in_order(keys, keep, y),
        forall|j: int| 0 <= j < x.len() && j < y.len() ==> x[j] == y[j],
    ensures
        y.len() <= x.len(),
{
    if x.len() < y.len() {
        let extra = y[x.len() as int];
        assert(keep[extra]);
        let m = choose|m: int| 0 <= m < x.len() && x[m] == extra;
        assert(comes_before(keys, y[m], y[x.len() as int]));
        lemma_comes_before(keys, extra, extra);
    }
}

/// A list holds no more items than there are.
pub(crate) proof fn lemma_order_len(keys: Seq<KeyView>, keep: Seq<bool>, idx: Seq<int>)
    requires
        in_order(keys, keep, idx),
    ensures
        idx.len() <= keep.len(),
{
    assert(idx.no_duplicates()) by {
        assert forall|a: int, b: int| 0 <= a < b < idx.len() implies idx[a] != idx[b] by {
            assert(comes_before(keys, idx[a], idx[b]));
            lemma_comes_before(keys, idx[a], idx[a]);
        }
    }
    let all = vstd::set_lib::set_int_range(0, keep.len() as int);
    vstd::set_lib::lemma_int_range(0, keep.len() as int);
    assert(idx.to_set().subset_of(all)) by {
        assert forall|i: int| idx.to_set().contains(i) implies all.contains(i) by {
            let k = choose|k: int| 0 <= k < idx.len() && idx[k] == i;
            assert(0 <= idx[k] < keep.len());
        }
    }
    idx.unique_seq_to_set();
    vstd::set_lib::lemma_len_subset(idx.to_set(), all);
}

/// The keys of a list of items.
pub open spec fn key_views(keys: Seq<SortKey>) -> Seq<KeyView> {
    keys.map_values(|k: SortKey| k@)
}

/// Positions as plain numbers.
pub open spec fn positions(idx: Seq<usize>) -> Seq<int> {
    idx.map_values(|i: usize| i as int)
}

/// The positions of the kept items, in the order of their keys; items with the same key stay
/// as they came.
pub fn order(keys: &Vec<SortKey>, keep: &Vec<bool>) -> (idx: Vec<usize>)
    requires
        keys@.len() == keep@.len(),
    ensures
        in_order(key_views(keys@), keep@, positions(idx@)),
{
    let ghost ks = key_views(keys@);
    let mut idx: Vec<usize> = Vec::new();
    let mut i: usize = 0;
    while i < keep.len()
        invariant
            i <= keep@.len(),
            keys@.len() == keep@.len(),
            ks == key_views(keys@),
            in_order(ks, keep@.take(i as int), positions(idx@)),
        decreases keep@.len() - i,
    {
        let ghost before = positions(idx@);
        let ghost kept = keep@.take(i as int);
        if keep[i] {
            let mut lo: usize = 0;
            let mut hi: usize = idx.len();
            while lo < hi
                invariant
                    i < keys@.len(),
                    lo <= hi <= idx@.len(),
                    before == positions(idx@),
                    ks == key_views(keys@),
                    kept.len() == i,
                    in_order(ks, kept, before),
                    forall|p: int| 0 <= p < lo ==> !key_before(ks[i as int], ks[#[trigger] before[p]]),
                    forall|p: int| hi <= p < before.len() ==> key_before(ks[i as int], ks[#[trigger] before[p]]),
                decreases hi - lo,
            {
                let mid: usize = lo + (hi - lo) / 2;
                assert(0 <= before[mid as int] < kept.len());
                if is_key_before(&keys[i], &keys[idx[mid]]) {
                    assert forall|p: int| mid <= p < before.len() implies key_before(ks[i as int], ks[#[trigger] before[p]]) by {
                        if p > mid {
                            assert(comes_before(ks, before[mid as int], before[p]));
                            lemma_key_order(ks[i as int], ks[before[mid as int]], ks[before[p]]);
                        }
                    }
                    hi = mid;
                } else {
                    assert forall|p: int| 0 <= p < mid + 1 implies !key_before(ks[i as int], ks[#[trigger] before[p]]) by {
                        if p < mid {
                            assert(comes_before(ks, before[p], before[mid as int]));
                            lemma_key_order(ks[i as int], ks[before[p]], ks[before[mid as int]]);
                        }
                    }
                    lo = mid + 1;
                }
            }
            idx.insert(lo, i);
            let ghost now = positions(idx@);
            proof {
                assert(now =~= before.insert(lo as int, i as int));
                let kept1 = keep@.take(i + 1);
                assert forall|a: int, b: int| 0 <= a < b < now.len() implies comes_before(ks, #[trigger] now[a], #[trigger] now[b]) by {
                    if b == lo {
                        assert(now[a] == before[a]);
                        lemma_key_order(ks[i as int], ks[before[a]], ks[i as int]);
                    } else if a == lo {
                        assert(now[b] == before[b - 1]);
                    } else {
                        let a0 = if a < lo { a } else { a - 1 };
                        let b0 = if b < lo { b } else { b - 1 };
                        assert(now[a] == before[a0] && now[b] == before[b0]);
                    }
                }
                assert forall|j: int| 0 <= j < kept1.len() && #[trigger] kept1[j] implies now.contains(j) by {
                    if j < i {
                        assert(kept[j]);
                        let m = choose|m: int| 0 <= m < before.len() && before[m] == j;
                        assert(now[if m < lo { m } else { m + 1 }] == j);
                    } else {
                        assert(now[lo as int] == i as int);
                    }
                }
                assert forall|k: int| 0 <= k < now.len() implies 0 <= #[trigger] now[k] < kept1.len() && kept1[now[k]] by {
                    if k != lo {
                        let k0 = if k < lo { k } else { k - 1 };
                        assert(now[k] == before[k0]);
                        assert(kept[before[k0]]);
                    }
                }
            }
        } else {
            proof {
                let kept1 = keep@.take(i + 1);
                assert forall|j: int| 0 <= j < kept1.len() && #[trigger] kept1[j] implies before.contains(j) by {
                    assert(kept[j]);
                }
                assert forall|k: int| 0 <= k < before.len() implies 0 <= #[trigger] before[k] < kept1.len() && kept1[before[k]] by {
                    assert(kept[before[k]]);
                }
            }
        }
        i += 1;
    }
    assert(keep@.take(i as int) =~= keep@);
    idx
}

/// The first character that differs decides which text comes first, the smaller before the larger, and a text comes
/// before every longer one that begins with it.
pub proof fn law_first_difference_decides(same: Seq<char>, a: char, b: char, x: Seq<char>, y: Seq<char>)
    requires
        a != b,
    ensures
        text_before(same.push(a) + x, same.push(b) + y) == (a < b),
        text_before(same, same.push(a) + x),
        !text_before(same.push(a) + x, same),
    decreases same.len(),
{
    let p = same.push(a) + x;
    let q = same.push(b) + y;
    if same.len() == 0 {
        assert(p[0] == a && q[0] == b);
    } else {
        assert(p[0] == same[0] && q[0] == same[0]);
        assert(p.skip(1) =~= same.skip(1).push(a) + x);
        assert(q.skip(1) =~= same.skip(1).push(b) + y);
        law_first_difference_decides(same.skip(1), a, b, x, y);
    }
}

} // verus!
