//! BungeeCord plugin messages: the payload is cut at zero bytes; every
//! piece after the first that is not empty is a length byte followed by
//! UTF-8 text.

use vstd::prelude::*;
use vstd::slice::{slice_subrange, slice_to_vec};
use vstd::utf8::valid_utf8;
use crate::wire::is_utf8;

verus! {

/// Length of the run of non-zero bytes at the front of `s`.
pub open spec fn nonzero_len(s: Seq<u8>) -> nat
    decreases s.len(),
{
    if s.len() == 0 || s[0] == 0 {
        0
    } else {
        1 + nonzero_len(s.drop_first())
    }
}

pub proof fn lemma_nonzero_len_bound(s: Seq<u8>)
    ensures
        nonzero_len(s) <= s.len(),
    decreases s.len(),
{
    if s.len() > 0 && s[0] != 0 {
        lemma_nonzero_len_bound(s.drop_first());
    }
}

/// The pieces of `s` between zero bytes: one more piece than there are
/// zeros, empty pieces included.
pub open spec fn zero_segments(s: Seq<u8>) -> Seq<Seq<u8>>
    decreases s.len(),
{
    proof {
        lemma_nonzero_len_bound(s);
    }
    let n = nonzero_len(s);
    if n >= s.len() {
        seq![s]
    } else {
        seq![s.take(n as int)] + zero_segments(s.skip(n as int + 1))
    }
}

/// The texts of the given pieces: each non-empty piece without its first
/// (length) byte, in order; `None` when one of them is not UTF-8.
pub open spec fn segment_texts(segments: Seq<Seq<u8>>) -> Option<Seq<Seq<u8>>>
    decreases segments.len(),
{
    if segments.len() == 0 {
        Some(seq![])
    } else {
        let seg = segments.last();
        match segment_texts(segments.drop_last()) {
            None => None,
            Some(texts) => if seg.len() == 0 {
                Some(texts)
            } else if valid_utf8(seg.drop_first()) {
                Some(texts.push(seg.drop_first()))
            } else {
                None
            },
        }
    }
}

/// The texts of a BungeeCord payload: those of its pieces after the first.
pub open spec fn plugin_texts(payload: Seq<u8>) -> Option<Seq<Seq<u8>>> {
    segment_texts(zero_segments(payload).drop_first())
}

proof fn lemma_nonzero_len_exact(t: Seq<u8>, m: nat)
    requires
        m <= t.len(),
        forall|k: int| 0 <= k < m ==> #[trigger] t[k] != 0,
        m == t.len() || t[m as int] == 0,
    ensures
        nonzero_len(t) == m,
    decreases m,
{
    if m > 0 {
        let d = t.drop_first();
        assert forall|k: int| 0 <= k < m - 1 implies #[trigger] d[k] != 0 by {
            assert(d[k] == t[k + 1]);
        }
        if m < t.len() {
            assert(d[m - 1] == t[m as int]);
        }
        lemma_nonzero_len_exact(d, (m - 1) as nat);
    }
}

/// Cuts `s` at its zero bytes.
pub fn split_at_zeros(s: &[u8]) -> (r: Vec<Vec<u8>>)
    ensures
        r.deep_view() == zero_segments(s@),
{
    let mut out: Vec<Vec<u8>> = Vec::new();
    let mut i: usize = 0;
    assert(s@.skip(0) =~= s@);
    loop
        invariant
            i <= s@.len(),
            out.deep_view() + zero_segments(s@.skip(i as int)) == zero_segments(s@),
        decreases s@.len() - i,
    {
        let ghost t = s@.skip(i as int);
        let mut j: usize = i;
        while j < s.len() && s[j] != 0
            invariant
                i <= j <= s@.len(),
                forall|k: int| i <= k < j ==> #[trigger] s@[k] != 0,
            decreases s@.len() - j,
        {
            j = j + 1;
        }
        proof {
            assert forall|k: int| 0 <= k < j - i implies #[trigger] t[k] != 0 by {
                assert(t[k] == s@[i + k]);
            }
            if j < s@.len() {
                assert(t[j - i] == s@[j as int]);
            }
            lemma_nonzero_len_exact(t, (j - i) as nat);
        }
        let piece = slice_to_vec(slice_subrange(s, i, j));
        let ghost before = out.deep_view();
        let ghost old_out = out@;
        assert(piece.deep_view() =~= piece@);
        out.push(piece);
        assert(out.deep_view() =~= before.push(piece@)) by {
            assert(out@ == old_out.push(piece));
        }
        if j == s.len() {
            assert(t =~= s@.subrange(i as int, j as int));
            assert(zero_segments(t) == seq![t]);
            assert(out.deep_view() =~= before + zero_segments(t));
            return out;
        }
        assert(t.take((j - i) as int) =~= s@.subrange(i as int, j as int));
        assert(t.skip((j - i) + 1) =~= s@.skip(j + 1));
        assert(zero_segments(t) == seq![t.take((j - i) as int)] + zero_segments(s@.skip(j + 1)));
        assert(out.deep_view() + zero_segments(s@.skip(j + 1)) =~= before + zero_segments(t));
        i = j + 1;
    }
}

/// The texts of a BungeeCord payload; `None` when one is not UTF-8.
pub fn parse_plugin_texts(payload: &[u8]) -> (r: Option<Vec<Vec<u8>>>)
    ensures
        match plugin_texts(payload@) {
            Some(texts) => r matches Some(v) && v.deep_view() == texts,
            None => r is None,
        },
{
    let segments = split_at_zeros(payload);
    let ghost segs = segments.deep_view();
    let ghost tail = segs.drop_first();
    let mut texts: Vec<Vec<u8>> = Vec::new();
    let mut k: usize = 1;
    assert(tail.take(0) =~= Seq::<Seq<u8>>::empty());
    while k < segments.len()
        invariant
            1 <= k <= segments@.len() || segments@.len() == 0,
            segs == segments.deep_view(),
            segs == zero_segments(payload@),
            segs.len() >= 1,
            tail == segs.drop_first(),
            segment_texts(tail.take(k - 1)) == Some(texts.deep_view()),
        decreases segments@.len() - k,
    {
        let seg = &segments[k];
        let ghost prefix = tail.take(k - 1);
        assert(tail.take(k as int).drop_last() =~= prefix);
        assert(tail.take(k as int).last() =~= seg@);
        if seg.len() > 0 {
            let text = slice_to_vec(slice_subrange(seg.as_slice(), 1, seg.len()));
            assert(text@ =~= seg@.drop_first());
            if !is_utf8(text.as_slice()) {
                proof {
                    assert(segment_texts(tail.take(k as int)) is None);
                    lemma_texts_fail_extends(tail, k as nat);
                    assert(plugin_texts(payload@) == segment_texts(tail));
                }
                return None;
            }
            let ghost before = texts.deep_view();
            let ghost old_texts = texts@;
            assert(text.deep_view() =~= text@);
            texts.push(text);
            assert(texts.deep_view() =~= before.push(text@)) by {
                assert(texts@ == old_texts.push(text));
            }
        }
        k = k + 1;
    }
    assert(tail.take(tail.len() as int) =~= tail);
    Some(texts)
}

proof fn lemma_texts_fail_extends(tail: Seq<Seq<u8>>, k: nat)
    requires
        1 <= k <= tail.len(),
        segment_texts(tail.take(k as int)) is None,
    ensures
        segment_texts(tail) is None,
    decreases tail.len() - k,
{
    if k < tail.len() {
        assert(tail.take(k as int + 1).drop_last() =~= tail.take(k as int));
        lemma_texts_fail_extends(tail, k + 1);
    } else {
        assert(tail.take(k as int) =~= tail);
    }
}

} // verus!
