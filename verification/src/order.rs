//! The order in which holdings are listed: by script name, case-folded,
//! ties kept in the order the server sent them.

use vstd::prelude::*;
use crate::text::{chars_of, lowercased, to_lower};

verus! {

/// Strict lexicographic order on texts, character by character by code
/// point (which is also the byte order of their UTF-8 encodings, the order
/// of `String`).
pub open spec fn text_lt(a: Seq<char>, b: Seq<char>) -> bool
    decreases a.len(),
{
    if a.len() == 0 {
        b.len() > 0
    } else if b.len() == 0 {
        false
    } else if a[0] != b[0] {
        a[0] < b[0]
    } else {
        text_lt(a.drop_first(), b.drop_first())
    }
}

/// Position `x` comes before position `y` when its key is smaller, or when
/// the keys are equal and `x` came first.
pub open spec fn key_before(keys: Seq<Seq<char>>, x: int, y: int) -> bool {
    text_lt(keys[x], keys[y]) || (keys[x] == keys[y] && x < y)
}

/// `order` lists every position of `keys` once, sorted by `key_before`.
pub open spec fn is_sorted_order(keys: Seq<Seq<char>>, order: Seq<usize>) -> bool {
    &&& order.len() == keys.len()
    &&& forall|k: int| 0 <= k < order.len() ==> #[trigger] order[k] < keys.len()
    &&& forall|x: int| 0 <= x < keys.len() ==> #[trigger] order.contains(x as usize)
    &&& forall|k: int, l: int|
        0 <= k < l < order.len() ==> key_before(keys, #[trigger] order[k] as int, #[trigger] order[l] as int)
}

/// The views of a vector of strings.
pub open spec fn views(v: Seq<String>) -> Seq<Seq<char>> {
    v.map_values(|s: String| s@)
}

proof fn lemma_text_lt_irreflexive(a: Seq<char>)
    ensures
        !text_lt(a, a),
    decreases a.len(),
{
    if a.len() > 0 {
        lemma_text_lt_irreflexive(a.drop_first());
    }
}

proof fn lemma_text_lt_asymmetric(a: Seq<char>, b: Seq<char>)
    ensures
        !(text_lt(a, b) && text_lt(b, a)),
    decreases a.len(),
{
    if a.len() > 0 && b.len() > 0 && a[0] == b[0] {
        lemma_text_lt_asymmetric(a.drop_first(), b.drop_first());
    }
}

proof fn lemma_text_lt_total(a: Seq<char>, b: Seq<char>)
    ensures
        a != b ==> text_lt(a, b) || text_lt(b, a),
    decreases a.len(),
{
    if a.len() > 0 && b.len() > 0 && a[0] == b[0] {
        lemma_text_lt_total(a.drop_first(), b.drop_first());
        if a.drop_first() == b.drop_first() {
            assert(a =~= seq![a[0]] + a.drop_first());
            assert(b =~= seq![b[0]] + b.drop_first());
        }
    } else if a.len() == 0 && b.len() == 0 {
        assert(a =~= b);
    }
}

proof fn lemma_text_lt_transitive(a: Seq<char>, b: Seq<char>, c: Seq<char>)
    requires
        text_lt(a, b),
        text_lt(b, c),
    ensures
        text_lt(a, c),
    decreases a.len(),
{
    if a.len() > 0 && b.len() > 0 && c.len() > 0 && a[0] == b[0] && b[0] == c[0] {
        lemma_text_lt_transitive(a.drop_first(), b.drop_first(), c.drop_first());
    }
}

proof fn lemma_text_lt_skip(a: Seq<char>, b: Seq<char>, i: int)
    requires
        0 <= i <= a.len(),
        i <= b.len(),
        forall|k: int| 0 <= k < i ==> a[k] == b[k],
    ensures
        text_lt(a, b) == text_lt(a.skip(i), b.skip(i)),
    decreases i,
{
    if i > 0 {
        lemma_text_lt_skip(a.drop_first(), b.drop_first(), i - 1);
        assert(a.drop_first().skip(i - 1) =~= a.skip(i));
        assert(b.drop_first().skip(i - 1) =~= b.skip(i));
    } else {
        assert(a.skip(0) =~= a);
        assert(b.skip(0) =~= b);
    }
}

/// The strict order `text_lt`, computed.
fn text_less(a: &Vec<char>, b: &Vec<char>) -> (r: bool)
    ensures
        r == text_lt(a@, b@),
{
    let mut i: usize = 0;
    while i < a.len() && i < b.len() && a[i] == b[i]
        invariant
            i <= a.len(),
            i <= b.len(),
            forall|k: int| 0 <= k < i ==> a@[k] == b@[k],
        decreases a.len() - i,
    {
        i = i + 1;
    }
    proof {
        lemma_text_lt_skip(a@, b@, i as int);
    }
    if i == a.len() {
        i < b.len()
    } else if i == b.len() {
        false
    } else {
        a[i] < b[i]
    }
}

/// Equality of two texts, computed.
fn text_equal(a: &Vec<char>, b: &Vec<char>) -> (r: bool)
    ensures
        r == (a@ == b@),
{
    if a.len() != b.len() {
        return false;
    }
    let mut i: usize = 0;
    while i < a.len()
        invariant
            i <= a.len(),
            a.len() == b.len(),
            forall|k: int| 0 <= k < i ==> a@[k] == b@[k],
        decreases a.len() - i,
    {
        if a[i] != b[i] {
            return false;
        }
        i = i + 1;
    }
    assert(a@ =~= b@);
    true
}

fn before(keys: &Vec<Vec<char>>, x: usize, y: usize) -> (r: bool)
    requires
        x < keys.len(),
        y < keys.len(),
    ensures
        r == key_before(keys@.map_values(|k: Vec<char>| k@), x as int, y as int),
{
    let ghost ks = keys@.map_values(|k: Vec<char>| k@);
    assert(ks[x as int] == keys@[x as int]@);
    assert(ks[y as int] == keys@[y as int]@);
    text_less(&keys[x], &keys[y]) || (text_equal(&keys[x], &keys[y]) && x < y)
}

proof fn lemma_before_strict_total(keys: Seq<Seq<char>>, x: int, y: int)
    ensures
        !(key_before(keys, x, y) && key_before(keys, y, x)),
        x != y ==> key_before(keys, x, y) || key_before(keys, y, x),
{
    lemma_text_lt_asymmetric(keys[x], keys[y]);
    lemma_text_lt_irreflexive(keys[x]);
    lemma_text_lt_total(keys[x], keys[y]);
}

proof fn lemma_before_transitive(keys: Seq<Seq<char>>, x: int, y: int, z: int)
    requires
        key_before(keys, x, y),
        key_before(keys, y, z),
    ensures
        key_before(keys, x, z),
{
    if text_lt(keys[x], keys[y]) && text_lt(keys[y], keys[z]) {
        lemma_text_lt_transitive(keys[x], keys[y], keys[z]);
    }
}

/// The positions of `keys` in sorted order: by key, equal keys in their
/// input order (what a stable sort by key does).
pub fn sort_order(keys: &Vec<String>) -> (r: Vec<usize>)
    ensures
        is_sorted_order(views(keys@), r@),
{
    let n = keys.len();
    let ghost ks = views(keys@);
    let mut cs: Vec<Vec<char>> = Vec::new();
    let mut i: usize = 0;
    while i < n
        invariant
            i <= n,
            n == keys.len(),
            ks == views(keys@),
            cs.len() == i,
            forall|k: int| 0 <= k < i ==> #[trigger] cs@[k]@ == ks[k],
        decreases n - i,
    {
        cs.push(chars_of(keys[i].as_str()));
        i = i + 1;
    }
    let ghost cks = cs@.map_values(|k: Vec<char>| k@);
    assert(cks =~= ks);
    let mut res: Vec<usize> = Vec::new();
    let mut i: usize = 0;
    while i < n
        invariant
            i <= n,
            n == keys.len(),
            n == cs.len(),
            ks == views(keys@),
            cks == cs@.map_values(|k: Vec<char>| k@),
            cks == ks,
            res.len() == i,
            forall|k: int| 0 <= k < res.len() ==> #[trigger] res@[k] < i,
            forall|x: int| 0 <= x < i ==> #[trigger] res@.contains(x as usize),
            forall|k: int, l: int|
                0 <= k < l < res.len() ==> key_before(ks, #[trigger] res@[k] as int, #[trigger] res@[l] as int),
        decreases n - i,
    {
        let mut pos: usize = 0;
        while pos < res.len() && before(&cs, res[pos], i)
            invariant
                pos <= res.len(),
                i < n,
                n == cs.len(),
                cks == cs@.map_values(|k: Vec<char>| k@),
                cks == ks,
                forall|k: int| 0 <= k < res.len() ==> #[trigger] res@[k] < i,
                forall|q: int| 0 <= q < pos ==> key_before(ks, #[trigger] res@[q] as int, i as int),
            decreases res.len() - pos,
        {
            pos = pos + 1;
        }
        let ghost old_res = res@;
        proof {
            if pos < res.len() {
                lemma_before_strict_total(ks, old_res[pos as int] as int, i as int);
            }
        }
        res.insert(pos, i);
        proof {
            assert(res@ =~= old_res.insert(pos as int, i));
            assert forall|k: int, l: int| 0 <= k < l < res.len() implies key_before(
                ks,
                #[trigger] res@[k] as int,
                #[trigger] res@[l] as int,
            ) by {
                if l < pos {
                    assert(res@[k] == old_res[k] && res@[l] == old_res[l]);
                } else if l == pos {
                    assert(res@[k] == old_res[k]);
                } else if k < pos {
                    assert(res@[k] == old_res[k] && res@[l] == old_res[l - 1]);
                } else if k == pos {
                    assert(res@[l] == old_res[l - 1]);
                    if l - 1 > pos {
                        lemma_before_transitive(
                            ks,
                            i as int,
                            old_res[pos as int] as int,
                            old_res[l - 1] as int,
                        );
                    }
                } else {
                    assert(res@[k] == old_res[k - 1] && res@[l] == old_res[l - 1]);
                }
            }
            assert forall|x: int| 0 <= x < i + 1 implies #[trigger] res@.contains(x as usize) by {
                if x == i {
                    assert(res@[pos as int] == i);
                } else {
                    assert(old_res.contains(x as usize));
                    let k = choose|k: int| 0 <= k < old_res.len() && old_res[k] == x as usize;
                    if k < pos {
                        assert(res@[k] == x as usize);
                    } else {
                        assert(res@[k + 1] == x as usize);
                    }
                }
            }
            assert forall|k: int| 0 <= k < res.len() implies #[trigger] res@[k] < i + 1 by {
                if k < pos {
                    assert(res@[k] == old_res[k]);
                } else if k > pos {
                    assert(res@[k] == old_res[k - 1]);
                }
            }
        }
        i = i + 1;
    }
    res
}

/// The order in which holdings are listed: their script names case-folded
/// with `str::to_lowercase`, then sorted as `sort_order` does.
pub fn holdings_order(scripts: &Vec<String>) -> (r: Vec<usize>)
    ensures
        is_sorted_order(views(scripts@).map_values(|s: Seq<char>| lowercased(s)), r@),
{
    let mut keys: Vec<String> = Vec::new();
    let mut i: usize = 0;
    while i < scripts.len()
        invariant
            i <= scripts.len(),
            keys.len() == i,
            forall|k: int| 0 <= k < i ==> #[trigger] keys@[k]@ == lowercased(scripts@[k]@),
        decreases scripts.len() - i,
    {
        keys.push(to_lower(scripts[i].as_str()));
        i = i + 1;
    }
    assert(views(keys@) =~= views(scripts@).map_values(|s: Seq<char>| lowercased(s)));
    sort_order(&keys)
}

/// `a` and `b` agree on their first `i` characters.
pub open spec fn agree_upto(a: Seq<char>, b: Seq<char>, i: int) -> bool {
    forall|k: int| 0 <= k < i ==> #[trigger] a[k] == b[k]
}

/// `a` comes before `b` because of position `i`: they agree before it, and
/// there `a` has ended while `b` goes on, or `a` has the smaller character.
pub open spec fn before_at(a: Seq<char>, b: Seq<char>, i: int) -> bool {
    &&& 0 <= i <= a.len()
    &&& i <= b.len()
    &&& agree_upto(a, b, i)
    &&& ((i == a.len() && i < b.len()) || (i < a.len() && i < b.len() && a[i] < b[i]))
}

proof fn lemma_before_at_shift(a: Seq<char>, b: Seq<char>, i: int)
    requires
        a.len() > 0,
        b.len() > 0,
        a[0] == b[0],
        i >= 1,
    ensures
        before_at(a, b, i) == before_at(a.drop_first(), b.drop_first(), i - 1),
{
    let a1 = a.drop_first();
    let b1 = b.drop_first();
    if i <= a.len() && i <= b.len() {
        if agree_upto(a, b, i) {
            assert forall|k: int| 0 <= k < i - 1 implies #[trigger] a1[k] == b1[k] by {
                assert(a[k + 1] == b[k + 1]);
                assert(a1[k] == a[k + 1] && b1[k] == b[k + 1]);
            }
        }
        if agree_upto(a1, b1, i - 1) {
            assert forall|k: int| 0 <= k < i implies #[trigger] a[k] == b[k] by {
                if k > 0 {
                    assert(a1[k - 1] == b1[k - 1]);
                    assert(a1[k - 1] == a[k] && b1[k - 1] == b[k]);
                }
            }
        }
        if i < a.len() && i < b.len() {
            assert(a1[i - 1] == a[i] && b1[i - 1] == b[i]);
        }
    }
}

/// Law: one text is before another exactly when, after a common prefix,
/// the first ends while the second goes on, or the first has the smaller
/// character at the first difference.
pub proof fn lemma_text_lt_first_difference(a: Seq<char>, b: Seq<char>)
    ensures
        text_lt(a, b) <==> exists|i: int| before_at(a, b, i),
    decreases a.len(),
{
    if a.len() > 0 && b.len() > 0 && a[0] == b[0] {
        let a1 = a.drop_first();
        let b1 = b.drop_first();
        lemma_text_lt_first_difference(a1, b1);
        if text_lt(a, b) {
            let i = choose|i: int| before_at(a1, b1, i);
            lemma_before_at_shift(a, b, i + 1);
            assert(before_at(a, b, i + 1));
        }
        if exists|i: int| before_at(a, b, i) {
            let i = choose|i: int| before_at(a, b, i);
            if i == 0 {
                assert(false);
            }
            lemma_before_at_shift(a, b, i);
            assert(before_at(a1, b1, i - 1));
        }
    } else if a.len() == 0 {
        if b.len() > 0 {
            assert(before_at(a, b, 0));
        }
    } else if b.len() > 0 {
        if a[0] < b[0] {
            assert(before_at(a, b, 0));
        }
        if exists|i: int| before_at(a, b, i) {
            let i = choose|i: int| before_at(a, b, i);
            if i > 0 {
                assert(a[0] == b[0]);
            }
        }
    }
}

/// Law: a sorted order is a permutation of the positions; no position occurs
/// twice.
pub proof fn lemma_sorted_order_distinct(keys: Seq<Seq<char>>, order: Seq<usize>)
    requires
        is_sorted_order(keys, order),
    ensures
        forall|k: int, l: int|
            0 <= k < l < order.len() ==> #[trigger] order[k] != #[trigger] order[l],
{
    assert forall|k: int, l: int| 0 <= k < l < order.len() implies #[trigger] order[k]
        != #[trigger] order[l] by {
        lemma_before_strict_total(keys, order[k] as int, order[l] as int);
    }
}

/// Law: listed in the sorted order, the keys never decrease.
pub proof fn lemma_sorted_order_keys_ascend(keys: Seq<Seq<char>>, order: Seq<usize>)
    requires
        is_sorted_order(keys, order),
    ensures
        forall|k: int, l: int|
            0 <= k < l < order.len() ==> !text_lt(
                keys[#[trigger] order[l] as int],
                keys[#[trigger] order[k] as int],
            ),
{
    assert forall|k: int, l: int| 0 <= k < l < order.len() implies !text_lt(
        keys[#[trigger] order[l] as int],
        keys[#[trigger] order[k] as int],
    ) by {
        let a = keys[order[k] as int];
        let b = keys[order[l] as int];
        lemma_text_lt_asymmetric(a, b);
        lemma_text_lt_irreflexive(a);
    }
}

/// Law: there is only one sorted order of given keys, so the order is fully
/// determined by the keys.
pub proof fn lemma_sorted_order_unique(keys: Seq<Seq<char>>, o1: Seq<usize>, o2: Seq<usize>)
    requires
        is_sorted_order(keys, o1),
        is_sorted_order(keys, o2),
    ensures
        o1 == o2,
{
    lemma_sorted_orders_agree_upto(keys, o1, o2, o1.len() as int);
    assert(o1 =~= o2);
}

proof fn lemma_sorted_orders_agree_upto(keys: Seq<Seq<char>>, o1: Seq<usize>, o2: Seq<usize>, n: int)
    requires
        is_sorted_order(keys, o1),
        is_sorted_order(keys, o2),
        0 <= n <= o1.len(),
    ensures
        forall|j: int| 0 <= j < n ==> o1[j] == o2[j],
    decreases n,
{
    if n > 0 {
        let k = n - 1;
        lemma_sorted_orders_agree_upto(keys, o1, o2, k);
        lemma_sorted_order_distinct(keys, o1);
        lemma_sorted_order_distinct(keys, o2);
        let a = o1[k];
        let b = o2[k];
        if a != b {
            let bi = b as int;
            assert(0 <= bi < keys.len());
            assert(o1.contains(bi as usize));
            let p = choose|p: int| 0 <= p < o1.len() && o1[p] == b;
            let ai = a as int;
            assert(0 <= ai < keys.len());
            assert(o2.contains(ai as usize));
            let q = choose|q: int| 0 <= q < o2.len() && o2[q] == a;
            if p < k {
                assert(o2[p] == b);
            }
            if q < k {
                assert(o1[q] == a);
            }
            assert(p > k);
            assert(q > k);
            assert(key_before(keys, a as int, b as int));
            assert(key_before(keys, b as int, a as int));
            lemma_before_strict_total(keys, a as int, b as int);
        }
    }
}

} // verus!
