//! Whole numbers as decimal text: an optional minus sign and digits without
//! leading zeros, the way they stand in a packet on the wire.

use vstd::prelude::*;

verus! {

/// The digits of `n`, most significant first, as ASCII.
pub open spec fn digits(n: nat) -> Seq<u8>
    decreases n,
{
    if n < 10 {
        seq![(48 + n) as u8]
    } else {
        digits(n / 10).push((48 + n % 10) as u8)
    }
}

/// The decimal text of `v`: a minus sign for a negative number, then the
/// digits of its magnitude.
pub open spec fn decimal(v: int) -> Seq<u8> {
    if v < 0 {
        seq![45u8] + digits((-v) as nat)
    } else {
        digits(v as nat)
    }
}

/// Whether `b` is an ASCII digit.
pub open spec fn is_digit(b: u8) -> bool {
    48 <= b <= 57
}

/// The number that a run of ASCII digits spells.
pub open spec fn digits_value(s: Seq<u8>) -> nat
    decreases s.len(),
{
    if s.len() == 0 {
        0
    } else {
        10 * digits_value(s.drop_last()) + (s.last() - 48) as nat
    }
}

/// Whether `s` is a run of digits as `digits` writes them: at least one, all
/// of them digits, and no zero in front of another digit.
pub open spec fn is_canonical_digits(s: Seq<u8>) -> bool {
    &&& s.len() >= 1
    &&& forall|i: int| 0 <= i < s.len() ==> is_digit(#[trigger] s[i])
    &&& (s.len() > 1 ==> s[0] != 48)
}

/// The number whose decimal text `bytes` is, if it is that of a number that
/// fits in 32 bits with a sign.
pub open spec fn spec_parse_decimal(bytes: Seq<u8>) -> Option<i32> {
    if exists|v: i32| decimal(v as int) == bytes {
        Some(choose|v: i32| decimal(v as int) == bytes)
    } else {
        None
    }
}

/// What `digits` writes is canonical and spells the number it was written for.
pub proof fn lemma_digits_canonical(n: nat)
    ensures
        is_canonical_digits(digits(n)),
        digits_value(digits(n)) == n,
        n > 0 ==> digits(n)[0] != 48,
    decreases n,
{
    if n < 10 {
        let s = digits(n);
        assert(s.drop_last() =~= Seq::<u8>::empty());
        assert(digits_value(s.drop_last()) == 0);
    } else {
        lemma_digits_canonical(n / 10);
        let p = digits(n / 10);
        let s = digits(n);
        assert(s.drop_last() =~= p);
        assert(s[0] == p[0]);
        assert forall|i: int| 0 <= i < s.len() implies is_digit(#[trigger] s[i]) by {
            if i < p.len() {
                assert(s[i] == p[i]);
            }
        }
    }
}

/// A canonical run of digits is what `digits` writes for the number it spells.
pub proof fn lemma_canonical_digits(s: Seq<u8>)
    requires
        is_canonical_digits(s),
    ensures
        digits(digits_value(s)) == s,
        s[0] != 48 ==> digits_value(s) >= 1,
    decreases s.len(),
{
    let p = s.drop_last();
    if s.len() == 1 {
        assert(p =~= Seq::<u8>::empty());
        assert(digits_value(p) == 0);
        assert(is_digit(s[0]));
        assert(digits(digits_value(s)) =~= s);
    } else {
        assert(is_canonical_digits(p)) by {
            assert forall|i: int| 0 <= i < p.len() implies is_digit(#[trigger] p[i]) by {
                assert(p[i] == s[i]);
            }
        }
        lemma_canonical_digits(p);
        assert(p[0] == s[0]);
        assert(is_digit(s[s.len() - 1]));
        let d = (s.last() - 48) as nat;
        let v = digits_value(s);
        assert(v == 10 * digits_value(p) + d);
        assert(v / 10 == digits_value(p));
        assert(v % 10 == d);
        assert(digits(v) =~= s);
    }
}

/// The number that a run of digits spells is at least the number that any
/// of its beginnings spells.
pub proof fn lemma_value_grows(s: Seq<u8>, i: int)
    requires
        0 <= i <= s.len(),
        forall|k: int| 0 <= k < s.len() ==> is_digit(#[trigger] s[k]),
    ensures
        digits_value(s.subrange(0, i)) <= digits_value(s),
    decreases s.len() - i,
{
    if i == s.len() {
        assert(s.subrange(0, i) =~= s);
    } else {
        lemma_value_grows(s, i + 1);
        let t = s.subrange(0, i + 1);
        assert(t.drop_last() =~= s.subrange(0, i));
        assert(is_digit(s[i]));
        assert(t.last() == s[i]);
    }
}

/// Two numbers with the same decimal text are the same number.
pub proof fn lemma_decimal_injective(a: int, b: int)
    requires
        decimal(a) == decimal(b),
    ensures
        a == b,
{
    let ma = (if a < 0 { -a } else { a }) as nat;
    let mb = (if b < 0 { -b } else { b }) as nat;
    lemma_digits_canonical(ma);
    lemma_digits_canonical(mb);
    assert(is_digit(digits(ma)[0]));
    assert(is_digit(digits(mb)[0]));
    if a < 0 {
        assert(decimal(a)[0] == 45);
        assert(decimal(a).subrange(1, decimal(a).len() as int) =~= digits(ma));
        if b < 0 {
            assert(decimal(b).subrange(1, decimal(b).len() as int) =~= digits(mb));
        } else {
            assert(decimal(b)[0] == digits(mb)[0]);
        }
    } else {
        if b < 0 {
            assert(decimal(b)[0] == 45);
            assert(decimal(a)[0] == digits(ma)[0]);
        }
    }
}

/// Appends the digits of `n` to `out`.
fn push_digits(n: u32, out: &mut Vec<u8>)
    ensures
        final(out)@ == old(out)@ + digits(n as nat),
    decreases n,
{
    if n >= 10 {
        push_digits(n / 10, out);
    }
    let d: u8 = (48 + n % 10) as u8;
    out.push(d);
    assert(out@ =~= old(out)@ + digits(n as nat));
}

/// Appends the decimal text of `v` to `out`.
pub fn push_decimal(v: i32, out: &mut Vec<u8>)
    ensures
        final(out)@ == old(out)@ + decimal(v as int),
{
    if v < 0 {
        out.push(45u8);
        let m: u32 = (0 - (v as i64)) as u32;
        push_digits(m, out);
        assert(out@ =~= old(out)@ + decimal(v as int));
    } else {
        push_digits(v as u32, out);
    }
}

/// The decimal text of `v`.
pub fn format_decimal(v: i32) -> (text: Vec<u8>)
    ensures
        text@ == decimal(v as int),
{
    let mut out: Vec<u8> = Vec::new();
    push_decimal(v, &mut out);
    assert(out@ =~= decimal(v as int));
    out
}

/// Reads the canonical run of digits that `bytes` holds from `start` to its
/// end, if there is one and it spells no more than `limit`.
fn parse_digits(bytes: &[u8], start: usize, limit: u64) -> (value: Option<u64>)
    requires
        start <= bytes@.len(),
        limit <= 2147483648,
    ensures
        match value {
            Some(m) => {
                &&& is_canonical_digits(bytes@.subrange(start as int, bytes@.len() as int))
                &&& digits_value(bytes@.subrange(start as int, bytes@.len() as int)) == m
                &&& m <= limit
            },
            None => !(is_canonical_digits(bytes@.subrange(start as int, bytes@.len() as int))
                && digits_value(bytes@.subrange(start as int, bytes@.len() as int)) <= limit),
        },
{
    let n = bytes.len();
    let ghost s = bytes@.subrange(start as int, n as int);
    if start >= n {
        return None;
    }
    if n - start > 1 && bytes[start] == 48 {
        assert(s[0] == bytes@[start as int]);
        return None;
    }
    let mut acc: u64 = 0;
    let mut i: usize = start;
    assert(s.subrange(0, 0) =~= Seq::<u8>::empty());
    while i < n
        invariant
            start <= i <= n,
            n == bytes@.len(),
            limit <= 2147483648,
            s == bytes@.subrange(start as int, n as int),
            acc == digits_value(s.subrange(0, i - start)),
            acc <= limit,
            forall|k: int| 0 <= k < i - start ==> is_digit(#[trigger] s[k]),
        decreases n - i,
    {
        let b = bytes[i];
        assert(s[i - start] == b);
        if b < 48 || b > 57 {
            return None;
        }
        acc = acc * 10 + (b - 48) as u64;
        proof {
            let t = s.subrange(0, i + 1 - start);
            assert(t.drop_last() =~= s.subrange(0, i - start));
            assert(t.last() == b);
        }
        if acc > limit {
            proof {
                if is_canonical_digits(s) {
                    lemma_value_grows(s, i + 1 - start);
                }
            }
            return None;
        }
        i = i + 1;
    }
    assert(s.subrange(0, i - start) =~= s);
    Some(acc)
}

/// Reads a number from its decimal text. Only the text that `decimal` writes
/// for a number is read as that number: no plus sign, no blanks, no zero in
/// front, no minus zero.
pub fn parse_decimal(bytes: &[u8]) -> (value: Option<i32>)
    ensures
        value == spec_parse_decimal(bytes@),
        value matches Some(v) ==> bytes@ == decimal(v as int),
        value is None ==> forall|v: i32| decimal(v as int) != bytes@,
{
    let n = bytes.len();
    let negative = n > 0 && bytes[0] == 45;
    let found: Option<i32> = if negative {
        match parse_digits(bytes, 1, 2147483648) {
            Some(m) => {
                if m == 0 {
                    None
                } else {
                    Some((0 - (m as i64)) as i32)
                }
            },
            None => None,
        }
    } else {
        match parse_digits(bytes, 0, 2147483647) {
            Some(m) => Some(m as i32),
            None => None,
        }
    };
    proof {
        let start: int = if negative { 1 } else { 0 };
        let s = bytes@.subrange(start, n as int);
        match found {
            Some(v) => {
                lemma_canonical_digits(s);
                if negative {
                    assert(bytes@ =~= seq![45u8] + s);
                } else {
                    assert(bytes@ =~= s);
                }
                assert(decimal(v as int) == bytes@);
                let w = choose|w: i32| decimal(w as int) == bytes@;
                lemma_decimal_injective(w as int, v as int);
            },
            None => {
                assert forall|v: i32| decimal(v as int) != bytes@ by {
                    if decimal(v as int) == bytes@ {
                        let m = (if v < 0 { -v } else { v as int }) as nat;
                        lemma_digits_canonical(m);
                        if v < 0 {
                            assert(bytes@[0] == 45);
                            assert(s =~= digits(m));
                        } else {
                            assert(is_digit(digits(m)[0]));
                            assert(bytes@[0] == digits(m)[0]);
                            assert(s =~= digits(m));
                        }
                    }
                }
            },
        }
    }
    found
}

} // verus!
