//! Unsigned decimal numbers as they appear in header lines.

use vstd::prelude::*;

verus! {

/// ASCII `'+'`, accepted in front of a number.
pub const PLUS: u8 = 43;

pub open spec fn is_digit(b: u8) -> bool {
    48 <= b && b <= 57
}

pub open spec fn all_digits(s: Seq<u8>) -> bool {
    forall|i: int| 0 <= i < s.len() ==> is_digit(#[trigger] s[i])
}

/// The number that a run of decimal digits stands for.
pub open spec fn decimal_value(s: Seq<u8>) -> nat
    decreases s.len(),
{
    if s.len() == 0 {
        0
    } else {
        decimal_value(s.drop_last()) * 10 + (s.last() - 48) as nat
    }
}

/// The digits of `s` once an optional leading `+` is taken off.
pub open spec fn unsigned_part(s: Seq<u8>) -> Seq<u8> {
    if s.len() > 0 && s[0] == PLUS {
        s.skip(1)
    } else {
        s
    }
}

/// The size that a token stands for: one or more decimal digits, with an
/// optional `+` in front, whose value fits in 64 bits. Anything else is no size.
pub open spec fn parse_decimal(s: Seq<u8>) -> Option<u64> {
    let d = unsigned_part(s);
    if d.len() > 0 && all_digits(d) && decimal_value(d) <= u64::MAX {
        Some(decimal_value(d) as u64)
    } else {
        None
    }
}

/// The shortest run of decimal digits that stands for `n`.
pub open spec fn decimal_digits(n: nat) -> Seq<u8>
    decreases n,
{
    if n < 10 {
        seq![(48 + n) as u8]
    } else {
        decimal_digits(n / 10).push((48 + n % 10) as u8)
    }
}

proof fn lemma_value_of_prefix(s: Seq<u8>, k: int)
    requires
        0 <= k <= s.len(),
        all_digits(s),
    ensures
        decimal_value(s.take(k)) <= decimal_value(s),
    decreases s.len() - k,
{
    if k == s.len() {
        assert(s.take(k) =~= s);
    } else {
        let t = s.drop_last();
        assert(t.take(k) =~= s.take(k));
        assert forall|i: int| 0 <= i < t.len() implies is_digit(#[trigger] t[i]) by {
            assert(t[i] == s[i]);
        }
        lemma_value_of_prefix(t, k);
        assert(is_digit(s[s.len() - 1]));
    }
}

/// What `decimal_digits` writes is not empty, is made of digits only, and
/// stands for the number it was written for.
pub proof fn lemma_decimal_digits(n: nat)
    ensures
        decimal_digits(n).len() > 0,
        all_digits(decimal_digits(n)),
        decimal_value(decimal_digits(n)) == n,
    decreases n,
{
    let d = decimal_digits(n);
    if n < 10 {
        assert(d.drop_last() =~= Seq::<u8>::empty());
        assert(decimal_value(d.drop_last()) == 0);
        assert(d.last() == (48 + n) as u8);
    } else {
        let p = decimal_digits(n / 10);
        lemma_decimal_digits(n / 10);
        assert(d.drop_last() =~= p);
        assert(d.last() == (48 + n % 10) as u8);
        assert forall|i: int| 0 <= i < d.len() implies is_digit(#[trigger] d[i]) by {
            if i < p.len() {
                assert(d[i] == p[i]);
            }
        }
    }
}

/// A number written by `decimal_digits` is read back by `parse_decimal`.
pub proof fn lemma_parse_decimal_digits(n: u64)
    ensures
        parse_decimal(decimal_digits(n as nat)) == Some(n),
{
    lemma_decimal_digits(n as nat);
    let d = decimal_digits(n as nat);
    assert(is_digit(d[0]));
}

/// Reads a size from a token.
pub fn parse_u64(s: &[u8]) -> (r: Option<u64>)
    ensures
        r == parse_decimal(s@),
{
    let start: usize = if s.len() > 0 && s[0] == PLUS {
        1
    } else {
        0
    };
    if start == s.len() {
        return None;
    }
    let ghost d = unsigned_part(s@);
    assert(d =~= s@.skip(start as int));
    let mut acc: u64 = 0;
    let mut i: usize = start;
    assert(d.take(0) =~= Seq::<u8>::empty());
    while i < s.len()
        invariant
            start <= i <= s.len(),
            d == s@.skip(start as int),
            d == unsigned_part(s@),
            all_digits(d.take(i - start)),
            acc == decimal_value(d.take(i - start)),
        decreases s.len() - i,
    {
        let b = s[i];
        let ghost k = i - start;
        assert(d[k] == b);
        if !(48 <= b && b <= 57) {
            return None;
        }
        let digit: u64 = (b - 48) as u64;
        proof {
            let next = d.take(k + 1);
            assert(next.drop_last() =~= d.take(k));
            assert(next.last() == b);
            assert forall|j: int| 0 <= j < next.len() implies is_digit(#[trigger] next[j]) by {
                if j < k {
                    assert(next[j] == d.take(k)[j]);
                }
            }
            assert(decimal_value(next) == acc * 10 + digit);
        }
        if acc > (u64::MAX - digit) / 10 {
            proof {
                assert(acc * 10 + digit > u64::MAX) by (nonlinear_arith)
                    requires
                        acc > (u64::MAX - digit) / 10,
                        0 <= digit <= 9,
                ;
                if all_digits(d) {
                    lemma_value_of_prefix(d, k + 1);
                }
            }
            return None;
        }
        acc = acc * 10 + digit;
        i += 1;
    }
    assert(d.take(i - start) =~= d);
    Some(acc)
}

/// Appends the decimal digits of `n` to `out`.
pub fn push_decimal(n: u64, out: &mut Vec<u8>)
    ensures
        final(out)@ == old(out)@ + decimal_digits(n as nat),
    decreases n,
{
    if n >= 10 {
        push_decimal(n / 10, out);
    }
    let digit: u8 = 48 + (n % 10) as u8;
    out.push(digit);
    assert(out@ =~= old(out)@ + decimal_digits(n as nat));
}

/// The decimal digits of `n`.
pub fn format_u64(n: u64) -> (r: Vec<u8>)
    ensures
        r@ == decimal_digits(n as nat),
{
    let mut out: Vec<u8> = Vec::new();
    push_decimal(n, &mut out);
    assert(out@ =~= decimal_digits(n as nat));
    out
}

} // verus!
