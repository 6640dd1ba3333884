//! Small operations on byte strings that the wire formats are built from.

use vstd::prelude::*;
use vstd::utf8::{encode_utf8, is_ascii_chars, is_ascii_chars_encode_utf8};

verus! {

/// The bytes of a text that holds ASCII characters only: one byte for each
/// character.
pub open spec fn ascii_bytes(text: Seq<char>) -> Seq<u8> {
    Seq::new(text.len(), |i: int| text[i] as u8)
}

/// The bytes of a text.
pub fn text_bytes(text: &str) -> (bytes: &[u8])
    ensures
        bytes@ == encode_utf8(text@),
        is_ascii_chars(text@) ==> bytes@ == ascii_bytes(text@),
{
    proof {
        if is_ascii_chars(text@) {
            is_ascii_chars_encode_utf8(text@);
            assert(encode_utf8(text@) =~= ascii_bytes(text@));
        }
    }
    text.as_bytes()
}

/// Appends `bytes` to `out`.
pub fn append(out: &mut Vec<u8>, bytes: &[u8])
    ensures
        final(out)@ == old(out)@ + bytes@,
{
    let n = bytes.len();
    let mut i: usize = 0;
    while i < n
        invariant
            i <= n,
            n == bytes@.len(),
            out@ == old(out)@ + bytes@.subrange(0, i as int),
        decreases n - i,
    {
        out.push(bytes[i]);
        i = i + 1;
        assert(out@ =~= old(out)@ + bytes@.subrange(0, i as int));
    }
    assert(bytes@.subrange(0, n as int) =~= bytes@);
}

/// Whether `bytes` begins with `head`.
pub fn starts_with(bytes: &[u8], head: &[u8]) -> (found: bool)
    ensures
        found == head@.is_prefix_of(bytes@),
{
    let n = head.len();
    if bytes.len() < n {
        return false;
    }
    let mut i: usize = 0;
    while i < n
        invariant
            i <= n,
            n == head@.len(),
            n <= bytes@.len(),
            forall|k: int| 0 <= k < i ==> bytes@[k] == head@[k],
        decreases n - i,
    {
        if bytes[i] != head[i] {
            assert(bytes@.subrange(0, n as int)[i as int] != head@[i as int]);
            return false;
        }
        i = i + 1;
    }
    assert(head@ =~= bytes@.subrange(0, n as int));
    true
}

/// Whether `bytes` ends with `tail`.
pub fn ends_with(bytes: &[u8], tail: &[u8]) -> (found: bool)
    ensures
        found == tail@.is_suffix_of(bytes@),
{
    let n = tail.len();
    let m = bytes.len();
    if m < n {
        return false;
    }
    let mut i: usize = 0;
    while i < n
        invariant
            i <= n,
            n == tail@.len(),
            m == bytes@.len(),
            n <= m,
            forall|k: int| 0 <= k < i ==> bytes@[m - n + k] == tail@[k],
        decreases n - i,
    {
        if bytes[m - n + i] != tail[i] {
            assert(bytes@.subrange(m - n, m as int)[i as int] != tail@[i as int]);
            return false;
        }
        i = i + 1;
    }
    assert(tail@ =~= bytes@.subrange(m - n, m as int));
    true
}

/// Whether two byte strings are the same.
pub fn same_bytes(a: &[u8], b: &[u8]) -> (same: bool)
    ensures
        same == (a@ == b@),
{
    if a.len() != b.len() {
        return false;
    }
    let found = starts_with(a, b);
    proof {
        if found {
            assert(a@.subrange(0, b@.len() as int) =~= a@);
        }
    }
    found
}

/// Whether two string slices hold the same text.
pub fn same_text(a: &str, b: &str) -> (same: bool)
    ensures
        same == (a@ == b@),
{
    let left = a.to_owned();
    let right = b.to_owned();
    left == right
}

} // verus!
