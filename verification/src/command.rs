//! Chat commands: recognising `/server <name>` and splitting a message into
//! words at ASCII whitespace.

use vstd::prelude::*;
use vstd::slice::{slice_subrange, slice_to_vec};
use crate::names::{server_command, server_command_bytes};

verus! {

/// ASCII whitespace: space, tab, line feed, form feed, carriage return.
pub open spec fn is_ascii_ws(b: u8) -> bool {
    b == 32 || b == 9 || b == 10 || b == 12 || b == 13
}

/// Length of the run of non-whitespace bytes at the front of `s`.
pub open spec fn word_len(s: Seq<u8>) -> nat
    decreases s.len(),
{
    if s.len() == 0 || is_ascii_ws(s[0]) {
        0
    } else {
        1 + word_len(s.drop_first())
    }
}

pub proof fn lemma_word_len_bound(s: Seq<u8>)
    ensures
        word_len(s) <= s.len(),
        s.len() > 0 && !is_ascii_ws(s[0]) ==> word_len(s) >= 1,
    decreases s.len(),
{
    if s.len() > 0 && !is_ascii_ws(s[0]) {
        lemma_word_len_bound(s.drop_first());
    }
}

/// The words of `s`: its maximal runs of non-whitespace bytes, in order.
pub open spec fn ascii_words(s: Seq<u8>) -> Seq<Seq<u8>>
    decreases s.len(),
{
    if s.len() == 0 {
        seq![]
    } else if is_ascii_ws(s[0]) {
        ascii_words(s.drop_first())
    } else {
        proof {
            lemma_word_len_bound(s);
        }
        let n = word_len(s);
        seq![s.take(n as int)] + ascii_words(s.skip(n as int))
    }
}

/// Whether a chat message is a `/server ` command.
pub open spec fn is_server_command(msg: Seq<u8>) -> bool {
    msg.len() >= server_command().len() && msg.take(server_command().len() as int) == server_command()
}

/// Whether `b` is ASCII whitespace.
pub fn is_ascii_whitespace(b: u8) -> (r: bool)
    ensures
        r == is_ascii_ws(b),
{
    b == 32 || b == 9 || b == 10 || b == 12 || b == 13
}

proof fn lemma_word_len_exact(t: Seq<u8>, m: nat)
    requires
        m <= t.len(),
        forall|k: int| 0 <= k < m ==> !is_ascii_ws(#[trigger] t[k]),
        m == t.len() || is_ascii_ws(t[m as int]),
    ensures
        word_len(t) == m,
    decreases m,
{
    if m > 0 {
        let d = t.drop_first();
        assert forall|k: int| 0 <= k < m - 1 implies !is_ascii_ws(#[trigger] d[k]) by {
            assert(d[k] == t[k + 1]);
        }
        if m < t.len() {
            assert(d[m - 1] == t[m as int]);
        }
        lemma_word_len_exact(d, (m - 1) as nat);
    }
}

/// Splits `s` into its words.
pub fn split_ascii_whitespace(s: &[u8]) -> (r: Vec<Vec<u8>>)
    ensures
        r.deep_view() == ascii_words(s@),
{
    let mut out: Vec<Vec<u8>> = Vec::new();
    let mut i: usize = 0;
    assert(s@.skip(0) =~= s@);
    while i < s.len()
        invariant
            i <= s@.len(),
            out.deep_view() + ascii_words(s@.skip(i as int)) == ascii_words(s@),
        decreases s@.len() - i,
    {
        let ghost t = s@.skip(i as int);
        if is_ascii_whitespace(s[i]) {
            assert(t.drop_first() =~= s@.skip(i + 1));
            i = i + 1;
        } else {
            let mut j: usize = i;
            while j < s.len() && !is_ascii_whitespace(s[j])
                invariant
                    i <= j <= s@.len(),
                    forall|k: int| i <= k < j ==> !is_ascii_ws(#[trigger] s@[k]),
                decreases s@.len() - j,
            {
                j = j + 1;
            }
            proof {
                assert forall|k: int| 0 <= k < j - i implies !is_ascii_ws(#[trigger] t[k]) by {
                    assert(t[k] == s@[i + k]);
                }
                if j < s@.len() {
                    assert(t[j - i] == s@[j as int]);
                }
                lemma_word_len_exact(t, (j - i) as nat);
                assert(t.take((j - i) as int) =~= s@.subrange(i as int, j as int));
                assert(t.skip((j - i) as int) =~= s@.skip(j as int));
            }
            let word = slice_to_vec(slice_subrange(s, i, j));
            let ghost before = out.deep_view();
            let ghost old_out = out@;
            assert(word.deep_view() =~= word@);
            out.push(word);
            assert(out.deep_view() =~= before.push(word@)) by {
                assert(out@ == old_out.push(word));
            }
            assert(ascii_words(t) == seq![t.take((j - i) as int)] + ascii_words(s@.skip(j as int)));
            assert(out.deep_view() + ascii_words(s@.skip(j as int)) =~= before + ascii_words(t));
            i = j;
        }
    }
    assert(s@.skip(s@.len() as int) =~= Seq::<u8>::empty());
    assert(out.deep_view() + ascii_words(Seq::<u8>::empty()) =~= out.deep_view());
    out
}

/// Whether `s` begins with `prefix`.
pub fn starts_with(s: &[u8], prefix: &[u8]) -> (r: bool)
    ensures
        r == (s@.len() >= prefix@.len() && s@.take(prefix@.len() as int) == prefix@),
{
    if s.len() < prefix.len() {
        return false;
    }
    let mut i: usize = 0;
    while i < prefix.len()
        invariant
            prefix@.len() <= s@.len(),
            i <= prefix@.len(),
            forall|k: int| 0 <= k < i ==> s@[k] == prefix@[k],
        decreases prefix@.len() - i,
    {
        if s[i] != prefix[i] {
            assert(s@.take(prefix@.len() as int)[i as int] != prefix@[i as int]);
            return false;
        }
        i = i + 1;
    }
    assert(s@.take(prefix@.len() as int) =~= prefix@);
    true
}

/// Whether a chat message is a `/server ` command.
pub fn is_server_command_message(msg: &[u8]) -> (r: bool)
    ensures
        r == is_server_command(msg@),
{
    let prefix = server_command_bytes();
    starts_with(msg, prefix.as_slice())
}

} // verus!
