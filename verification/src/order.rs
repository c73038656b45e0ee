//! Stable orders, as lists of places.

use vstd::prelude::*;

use crate::text;

verus! {

/// `r` lists each of the first `n` places once.
pub open spec fn lists_all(r: Seq<usize>, n: int) -> bool {
    &&& r.len() == n
    &&& forall|i: int| 0 <= i < n ==> (#[trigger] r[i]) < n
    &&& forall|i: int, j: int| 0 <= i < j < n ==> #[trigger] r[i] != #[trigger] r[j]
    &&& forall|k: int| 0 <= k < n ==> #[trigger] r.contains(k as usize)
}

/// The larger key comes first; of equal keys, the earlier place.
pub open spec fn newer(keys: Seq<u64>, a: usize, b: usize) -> bool {
    keys[a as int] > keys[b as int] || keys[a as int] == keys[b as int] && a < b
}

/// The places in the order of their keys, the largest first.
pub open spec fn is_newest_first(keys: Seq<u64>, r: Seq<usize>) -> bool {
    &&& lists_all(r, keys.len() as int)
    &&& forall|i: int, j: int| 0 <= i < j < r.len() ==> newer(keys, #[trigger] r[i], #[trigger] r[j])
}

proof fn lemma_inserted(out: Seq<usize>, p: int, i: usize)
    requires
        0 <= p <= out.len(),
        out.len() == i,
        lists_all(out, i as int),
    ensures
        lists_all(out.insert(p, i), i + 1),
{
    let r = out.insert(p, i);
    assert forall|k: int| 0 <= k < i + 1 implies #[trigger] r.contains(k as usize) by {
        if k == i {
            assert(r[p] == i);
        } else {
            assert(out.contains(k as usize));
            let q = choose|q: int| 0 <= q < out.len() && out[q] == k as usize;
            if q < p {
                assert(r[q] == k as usize);
            } else {
                assert(r[q + 1] == k as usize);
            }
        }
    }
}

/// The places in the order of their keys, the largest first; places with equal
/// keys keep their order.
pub fn newest_first(keys: &[u64]) -> (r: Vec<usize>)
    ensures
        is_newest_first(keys@, r@),
{
    let n: usize = keys.len();
    let mut out: Vec<usize> = Vec::new();
    let mut i: usize = 0;
    while i < n
        invariant
            n == keys@.len(),
            i <= n,
            lists_all(out@, i as int),
            forall|a: int, b: int|
                0 <= a < b < out@.len() ==> newer(keys@, #[trigger] out@[a], #[trigger] out@[b]),
        decreases n - i,
    {
        let mut p: usize = out.len();
        while p > 0 && keys[out[p - 1]] < keys[i]
            invariant
                n == keys@.len(),
                i < n,
                lists_all(out@, i as int),
                p <= out@.len(),
                forall|a: int| p <= a < out@.len() ==> newer(keys@, i, #[trigger] out@[a]),
            decreases p,
        {
            p = p - 1;
        }
        proof {
            lemma_inserted(out@, p as int, i);
        }
        let ghost before = out@;
        out.insert(p, i);
        proof {
            assert forall|a: int, b: int| 0 <= a < b < out@.len() implies newer(
                keys@,
                #[trigger] out@[a],
                #[trigger] out@[b],
            ) by {
                let a0 = if a < p { a } else { a - 1 };
                let b0 = if b < p { b } else { b - 1 };
                if a == p {
                    assert(out@[b] == before[b0]);
                } else if b == p {
                    assert(out@[a] == before[a]);
                    if a < p - 1 {
                        assert(newer(keys@, before[a], before[p - 1]));
                    }
                } else {
                    assert(out@[a] == before[a0] && out@[b] == before[b0]);
                }
            }
        }
        i = i + 1;
    }
    out
}

/// Two newest-first lists of the same keys are the same.
pub proof fn lemma_newest_first_is_unique(keys: Seq<u64>, a: Seq<usize>, b: Seq<usize>)
    requires
        is_newest_first(keys, a),
        is_newest_first(keys, b),
    ensures
        a == b,
{
    lemma_agree(keys, a, b, a.len() as int);
    assert(a =~= b);
}

proof fn lemma_agree(keys: Seq<u64>, a: Seq<usize>, b: Seq<usize>, m: int)
    requires
        is_newest_first(keys, a),
        is_newest_first(keys, b),
        0 <= m <= a.len(),
    ensures
        forall|i: int| 0 <= i < m ==> a[i] == b[i],
    decreases m,
{
    if m > 0 {
        lemma_agree(keys, a, b, m - 1);
        let k = m - 1;
        if a[k] != b[k] {
            assert(b.contains(a[k] as int as usize));
            let q = choose|q: int| 0 <= q < b.len() && b[q] == a[k];
            if q < k {
                assert(a[q] == b[q]);
            } else {
                assert(newer(keys, b[k], b[q]));
            }
            assert(a.contains(b[k] as int as usize));
            let p = choose|p: int| 0 <= p < a.len() && a[p] == b[k];
            if p < k {
                assert(a[p] == b[p]);
            } else {
                assert(newer(keys, a[k], a[p]));
            }
        }
    }
}

// ---- texts --------------------------------------------------------------------------------

/// `a` comes before `b` in the dictionary of code points.
pub open spec fn text_less(a: Seq<char>, b: Seq<char>) -> bool
    decreases a.len(),
{
    if b.len() == 0 {
        false
    } else if a.len() == 0 {
        true
    } else if a[0] != b[0] {
        a[0] < b[0]
    } else {
        text_less(a.skip(1), b.skip(1))
    }
}

/// Whether `a` comes before `b`.
pub fn comes_before(a: &str, b: &str) -> (r: bool)
    ensures
        r == text_less(a@, b@),
{
    let x = text::chars_of(a);
    let y = text::chars_of(b);
    let mut i: usize = 0;
    assert(x@.skip(0) =~= x@ && y@.skip(0) =~= y@);
    while i < x.len() && i < y.len()
        invariant
            i <= x@.len(),
            i <= y@.len(),
            x@ == a@,
            y@ == b@,
            text_less(a@, b@) == text_less(x@.skip(i as int), y@.skip(i as int)),
        decreases x@.len() - i,
    {
        if x[i] != y[i] {
            return x[i] < y[i];
        }
        assert(x@.skip(i as int).skip(1) =~= x@.skip(i + 1));
        assert(y@.skip(i as int).skip(1) =~= y@.skip(i + 1));
        i = i + 1;
    }
    i < y.len()
}

proof fn lemma_text_less_total(a: Seq<char>, b: Seq<char>)
    ensures
        text_less(a, b) ==> !text_less(b, a),
        !text_less(a, b) && !text_less(b, a) ==> a == b,
    decreases a.len(),
{
    if a.len() > 0 && b.len() > 0 && a[0] == b[0] {
        lemma_text_less_total(a.skip(1), b.skip(1));
        if !text_less(a, b) && !text_less(b, a) {
            assert(a =~= seq![a[0]] + a.skip(1));
            assert(b =~= seq![b[0]] + b.skip(1));
        }
    } else if a.len() == 0 && b.len() == 0 {
        assert(a =~= b);
    }
}

proof fn lemma_text_less_transitive(a: Seq<char>, b: Seq<char>, c: Seq<char>)
    requires
        text_less(a, b),
        text_less(b, c),
    ensures
        text_less(a, c),
    decreases a.len(),
{
    if a.len() > 0 && a[0] == b[0] && b[0] == c[0] {
        lemma_text_less_transitive(a.skip(1), b.skip(1), c.skip(1));
    }
}

/// Of two texts, at most one comes before the other.
pub proof fn lemma_one_text_comes_first(a: Seq<char>, b: Seq<char>)
    ensures
        text_less(a, b) ==> !text_less(b, a),
        a == b ==> !text_less(a, b),
{
    lemma_text_less_total(a, b);
}

/// The text that comes first is first; of equal texts, the earlier place.
pub open spec fn alphabetic(keys: Seq<Seq<char>>, a: usize, b: usize) -> bool {
    text_less(keys[a as int], keys[b as int]) || keys[a as int] == keys[b as int] && a < b
}

/// The places in the order of their texts.
pub open spec fn is_alphabetic(keys: Seq<Seq<char>>, r: Seq<usize>) -> bool {
    &&& lists_all(r, keys.len() as int)
    &&& forall|i: int, j: int|
        0 <= i < j < r.len() ==> alphabetic(keys, #[trigger] r[i], #[trigger] r[j])
}

/// The places in the order of their texts; places with equal texts keep their
/// order.
pub fn alphabetically(keys: &[String]) -> (r: Vec<usize>)
    ensures
        is_alphabetic(text::texts(keys@), r@),
{
    let n: usize = keys.len();
    let ghost t = text::texts(keys@);
    let mut out: Vec<usize> = Vec::new();
    let mut i: usize = 0;
    while i < n
        invariant
            n == keys@.len(),
            t == text::texts(keys@),
            i <= n,
            lists_all(out@, i as int),
            forall|a: int, b: int|
                0 <= a < b < out@.len() ==> alphabetic(t, #[trigger] out@[a], #[trigger] out@[b]),
        decreases n - i,
    {
        let mut p: usize = out.len();
        while p > 0 && comes_before(keys[i].as_str(), keys[out[p - 1]].as_str())
            invariant
                n == keys@.len(),
                t == text::texts(keys@),
                i < n,
                lists_all(out@, i as int),
                p <= out@.len(),
                forall|a: int| p <= a < out@.len() ==> alphabetic(t, i, #[trigger] out@[a]),
            decreases p,
        {
            p = p - 1;
        }
        proof {
            lemma_inserted(out@, p as int, i);
            if p > 0 {
                lemma_text_less_total(t[out@[p - 1] as int], t[i as int]);
                assert(alphabetic(t, out@[p - 1], i));
            }
        }
        let ghost before = out@;
        out.insert(p, i);
        proof {
            assert forall|a: int, b: int| 0 <= a < b < out@.len() implies alphabetic(
                t,
                #[trigger] out@[a],
                #[trigger] out@[b],
            ) by {
                let a0 = if a < p { a } else { a - 1 };
                let b0 = if b < p { b } else { b - 1 };
                if a == p {
                    assert(out@[b] == before[b0]);
                } else if b == p {
                    assert(out@[a] == before[a]);
                    if a < p - 1 {
                        assert(alphabetic(t, before[a], before[p - 1]));
                        let x = t[before[a] as int];
                        let y = t[before[p - 1] as int];
                        let z = t[i as int];
                        if text_less(x, y) && text_less(y, z) {
                            lemma_text_less_transitive(x, y, z);
                        }
                    }
                } else {
                    assert(out@[a] == before[a0] && out@[b] == before[b0]);
                }
            }
        }
        i = i + 1;
    }
    out
}

/// Two lists of the same texts in the order of the alphabet are the same.
pub proof fn lemma_alphabetic_is_unique(keys: Seq<Seq<char>>, a: Seq<usize>, b: Seq<usize>)
    requires
        is_alphabetic(keys, a),
        is_alphabetic(keys, b),
    ensures
        a == b,
{
    lemma_texts_agree(keys, a, b, a.len() as int);
    assert(a =~= b);
}

proof fn lemma_texts_agree(keys: Seq<Seq<char>>, a: Seq<usize>, b: Seq<usize>, m: int)
    requires
        is_alphabetic(keys, a),
        is_alphabetic(keys, b),
        0 <= m <= a.len(),
    ensures
        forall|i: int| 0 <= i < m ==> a[i] == b[i],
    decreases m,
{
    if m > 0 {
        lemma_texts_agree(keys, a, b, m - 1);
        let k = m - 1;
        if a[k] != b[k] {
            assert(b.contains(a[k] as int as usize));
            let q = choose|q: int| 0 <= q < b.len() && b[q] == a[k];
            if q < k {
                assert(a[q] == b[q]);
            } else {
                assert(alphabetic(keys, b[k], b[q]));
            }
            assert(a.contains(b[k] as int as usize));
            let p = choose|p: int| 0 <= p < a.len() && a[p] == b[k];
            if p < k {
                assert(a[p] == b[p]);
            } else {
                assert(alphabetic(keys, a[k], a[p]));
            }
            lemma_text_less_total(keys[a[k] as int], keys[b[k] as int]);
        }
    }
}

// ---- laws ---------------------------------------------------------------------------------

/// The first place at which two texts differ decides which comes first; a text
/// comes before every longer one that begins with it.
pub proof fn lemma_first_difference_decides(a: &str, b: &str, i: int, r: bool)
    requires
        call_ensures(comes_before, (a, b), r),
        0 <= i <= a@.len(),
        i <= b@.len(),
        a@.take(i) == b@.take(i),
    ensures
        i < a@.len() && i < b@.len() && a@[i] < b@[i] ==> r,
        i < a@.len() && i < b@.len() && a@[i] > b@[i] ==> !r,
        i == a@.len() && i < b@.len() ==> r,
        i == b@.len() ==> !r,
{
    lemma_same_beginning(a@, b@, i);
    let x = a@.skip(i);
    let y = b@.skip(i);
    if i < a@.len() {
        assert(x[0] == a@[i]);
    }
    if i < b@.len() {
        assert(y[0] == b@[i]);
    }
}

proof fn lemma_same_beginning(a: Seq<char>, b: Seq<char>, i: int)
    requires
        0 <= i <= a.len(),
        i <= b.len(),
        a.take(i) == b.take(i),
    ensures
        text_less(a, b) == text_less(a.skip(i), b.skip(i)),
    decreases i,
{
    if i == 0 {
        assert(a.skip(0) =~= a);
        assert(b.skip(0) =~= b);
    } else {
        assert(a[0] == a.take(i)[0] && b[0] == b.take(i)[0]);
        assert(a.skip(1).take(i - 1) =~= a.take(i).skip(1));
        assert(b.skip(1).take(i - 1) =~= b.take(i).skip(1));
        lemma_same_beginning(a.skip(1), b.skip(1), i - 1);
        assert(a.skip(1).skip(i - 1) =~= a.skip(i));
        assert(b.skip(1).skip(i - 1) =~= b.skip(i));
    }
}

/// In the order of time no key is larger than one before it, and equal keys stand
/// as they stood.
pub proof fn lemma_newest_come_first(keys: &[u64], r: Vec<usize>, i: int, j: int)
    requires
        call_ensures(newest_first, (keys,), r),
        0 <= i < j < keys@.len(),
    ensures
        r@.len() == keys@.len(),
        keys@[r@[i] as int] >= keys@[r@[j] as int],
        keys@[r@[i] as int] == keys@[r@[j] as int] ==> r@[i] < r@[j],
        r@.contains(i as usize),
{
    assert(newer(keys@, r@[i], r@[j]));
    assert(lists_all(r@, keys@.len() as int));
}

/// In the order of the alphabet no text comes before one that stands before it,
/// and equal texts stand as they stood.
pub proof fn lemma_first_texts_come_first(
    keys: &[String],
    r: Vec<usize>,
    i: int,
    j: int,
    a: &str,
    b: &str,
    before: bool,
)
    requires
        call_ensures(alphabetically, (keys,), r),
        0 <= i < j < keys@.len(),
        a@ == keys@[r@[i] as int]@,
        b@ == keys@[r@[j] as int]@,
        call_ensures(comes_before, (b, a), before),
    ensures
        r@.len() == keys@.len(),
        !before,
        a@ == b@ ==> r@[i] < r@[j],
        r@.contains(i as usize),
{
    let t = text::texts(keys@);
    assert(alphabetic(t, r@[i], r@[j]));
    assert(lists_all(r@, keys@.len() as int));
    assert(t[r@[i] as int] == a@ && t[r@[j] as int] == b@);
    lemma_text_less_total(a@, b@);
}

} // verus!
