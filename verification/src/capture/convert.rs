//! Conversion of raw buffers, four bytes at a time.

use vstd::prelude::*;

verus! {

/// The whole pixels that fit both buffers, in bytes.
pub open spec fn whole(src: nat, dst: nat) -> int {
    let n = if src <= dst {
        src as int
    } else {
        dst as int
    };
    n - n % 4
}

/// `out` is what `f` may answer for the `k`th pixel of `src`.
pub open spec fn converts<F: Fn(&[u8]) -> [u8; 4]>(
    f: F,
    src: Seq<u8>,
    dst: Seq<u8>,
    k: int,
) -> bool {
    exists|s: &[u8], d: [u8; 4]|
        #![trigger call_ensures(f, (s,), d)]
        s@ == src.subrange(k * 4, k * 4 + 4) && d@ == dst.subrange(k * 4, k * 4 + 4)
            && call_ensures(f, (s,), d)
}

/// Converts `src` into `dst` pixel by pixel: every whole pixel that both hold
/// becomes what `per_pixel` makes of it, and the rest of `dst` is kept.
pub fn par_convert<F: Fn(&[u8]) -> [u8; 4]>(src: &[u8], dst: &mut [u8], per_pixel: F)
    requires
        forall|s: &[u8]| s@.len() == 4 ==> call_requires(per_pixel, (s,)),
    ensures
        final(dst)@.len() == old(dst)@.len(),
        forall|k: int|
            0 <= k && k * 4 < whole(src@.len(), old(dst)@.len()) ==> #[trigger] converts(
                per_pixel,
                src@,
                final(dst)@,
                k,
            ),
        final(dst)@.skip(whole(src@.len(), old(dst)@.len())) == old(dst)@.skip(
            whole(src@.len(), old(dst)@.len()),
        ),
{
    let shorter: usize = if src.len() <= dst.len() { src.len() } else { dst.len() };
    let pixels: usize = shorter / 4;
    let ghost n = whole(src@.len(), dst@.len());
    let mut k: usize = 0;
    while k < pixels
        invariant
            forall|s: &[u8]| s@.len() == 4 ==> call_requires(per_pixel, (s,)),
            n == whole(src@.len(), old(dst)@.len()),
            n == pixels * 4,
            n <= src@.len(),
            n <= dst@.len(),
            src@.len() <= usize::MAX,
            k <= pixels,
            dst@.len() == old(dst)@.len(),
            forall|j: int| 0 <= j < k ==> #[trigger] converts(per_pixel, src@, dst@, j),
            dst@.skip(n) == old(dst)@.skip(n),
        decreases pixels - k,
    {
        let ghost before = dst@;
        let s = vstd::slice::slice_subrange(src, k * 4, k * 4 + 4);
        let d: [u8; 4] = per_pixel(s);
        dst[k * 4] = d[0];
        dst[k * 4 + 1] = d[1];
        dst[k * 4 + 2] = d[2];
        dst[k * 4 + 3] = d[3];
        proof {
            assert(dst@.subrange(k * 4, k * 4 + 4) =~= d@);
            assert(converts(per_pixel, src@, dst@, k as int));
            assert forall|j: int| 0 <= j < k implies #[trigger] converts(
                per_pixel,
                src@,
                dst@,
                j,
            ) by {
                assert(converts(per_pixel, src@, before, j));
                assert(dst@.subrange(j * 4, j * 4 + 4) =~= before.subrange(j * 4, j * 4 + 4));
            }
            assert(dst@.skip(n) =~= old(dst)@.skip(n));
        }
        k = k + 1;
    }
}

/// Runs a capture step whose conversions stay on the calling thread. How the
/// work is shared out never shows in what `f` answers.
pub fn capture_serial<R, F: FnOnce() -> R>(f: F) -> (r: R)
    requires
        call_requires(f, ()),
    ensures
        call_ensures(f, (), r),
{
    f()
}

/// A conversion that answers one way only gives the same bytes however often
/// it is run, and a buffer converted in two parts at a pixel boundary holds
/// what it holds when converted whole.
pub proof fn lemma_parts_convert_alike<F: Fn(&[u8]) -> [u8; 4]>(
    f: F,
    src: Seq<u8>,
    at: int,
    whole_out: Seq<u8>,
    left: Seq<u8>,
    right: Seq<u8>,
)
    requires
        src.len() % 4 == 0,
        0 <= at <= src.len(),
        at % 4 == 0,
        whole_out.len() == src.len(),
        left.len() == at,
        right.len() == src.len() - at,
        forall|s: &[u8], t: &[u8], d: [u8; 4], e: [u8; 4]|
            s@ == t@ && call_ensures(f, (s,), d) && call_ensures(f, (t,), e) ==> d@ == e@,
        forall|k: int|
            0 <= k && k * 4 < src.len() ==> #[trigger] converts(f, src, whole_out, k),
        forall|k: int|
            0 <= k && k * 4 < at ==> #[trigger] converts(f, src.take(at), left, k),
        forall|k: int|
            0 <= k && k * 4 < src.len() - at ==> #[trigger] converts(f, src.skip(at), right, k),
    ensures
        whole_out == left + right,
{
    let both = left + right;
    assert forall|i: int| 0 <= i < src.len() implies whole_out[i] == both[i] by {
        let k = i / 4;
        assert(converts(f, src, whole_out, k));
        let (s, d) = choose|s: &[u8], d: [u8; 4]|
            #![trigger call_ensures(f, (s,), d)]
            s@ == src.subrange(k * 4, k * 4 + 4) && d@ == whole_out.subrange(k * 4, k * 4 + 4)
                && call_ensures(f, (s,), d);
        if i < at {
            assert(converts(f, src.take(at), left, k));
            let (t, e) = choose|t: &[u8], e: [u8; 4]|
                #![trigger call_ensures(f, (t,), e)]
                t@ == src.take(at).subrange(k * 4, k * 4 + 4) && e@ == left.subrange(
                    k * 4,
                    k * 4 + 4,
                ) && call_ensures(f, (t,), e);
            assert(s@ =~= t@);
            assert(d@ == e@);
            assert(d@[i - k * 4] == whole_out[i]);
            assert(e@[i - k * 4] == left[i]);
        } else {
            let m = k - at / 4;
            assert(m * 4 == k * 4 - at);
            assert(converts(f, src.skip(at), right, m));
            let (t, e) = choose|t: &[u8], e: [u8; 4]|
                #![trigger call_ensures(f, (t,), e)]
                t@ == src.skip(at).subrange(m * 4, m * 4 + 4) && e@ == right.subrange(
                    m * 4,
                    m * 4 + 4,
                ) && call_ensures(f, (t,), e);
            assert(s@ =~= t@);
            assert(d@ == e@);
            assert(d@[i - k * 4] == whole_out[i]);
            assert(e@[i - k * 4] == right[i - at]);
        }
    }
    assert(whole_out =~= both);
}

} // verus!
