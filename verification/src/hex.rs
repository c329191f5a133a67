//! Hexadecimal spelling of the numeric identifiers that cross the serial
//! protocol: every id travels as `0x` followed by hex digits.

use vstd::prelude::*;
use crate::error::ErrorKind;

verus! {

/// True of an ASCII hex digit byte: `0-9`, `a-f` or `A-F`.
pub open spec fn is_hex_digit(b: u8) -> bool {
    (48 <= b <= 57) || (97 <= b <= 102) || (65 <= b <= 70)
}

/// True of the hex digit bytes that the formatters emit: `0-9` or `a-f`.
pub open spec fn is_lower_hex_digit(b: u8) -> bool {
    (48 <= b <= 57) || (97 <= b <= 102)
}

/// Numeric value of one hex digit byte.
pub open spec fn hex_digit_value(b: u8) -> nat {
    if 48 <= b <= 57 {
        (b - 48) as nat
    } else if 97 <= b <= 102 {
        (b - 87) as nat
    } else if 65 <= b <= 70 {
        (b - 55) as nat
    } else {
        0
    }
}

/// The lower-case hex digit byte for a value below 16.
pub open spec fn lower_hex_digit_byte(v: nat) -> u8 {
    if v < 10 {
        (48 + v) as u8
    } else {
        (87 + v) as u8
    }
}

/// Value of a big-endian sequence of hex digit bytes.
pub open spec fn hex_value(s: Seq<u8>) -> nat
    decreases s.len(),
{
    if s.len() == 0 {
        0
    } else {
        hex_value(s.drop_last()) * 16 + hex_digit_value(s.last())
    }
}

/// 16 to the power `n`.
pub open spec fn pow16(n: nat) -> nat
    decreases n,
{
    if n == 0 {
        1
    } else {
        16 * pow16((n - 1) as nat)
    }
}

/// The `n`-digit big-endian lower-case hex spelling of `v` (modulo 16^n).
pub open spec fn spec_hex_digits(v: nat, n: nat) -> Seq<u8>
    decreases n,
{
    if n == 0 {
        Seq::empty()
    } else {
        spec_hex_digits(v / 16, (n - 1) as nat).push(lower_hex_digit_byte(v % 16))
    }
}

/// The eight-digit spelling of a `u32`, as the `list` report uses.
pub open spec fn spec_hex8(v: u32) -> Seq<u8> {
    spec_hex_digits(v as nat, 8)
}

/// A digit string with its leading zero digits removed, one digit always
/// kept.
pub open spec fn strip_zeros(s: Seq<u8>) -> Seq<u8>
    decreases s.len(),
{
    if s.len() <= 1 {
        s
    } else if s.first() == 48 {
        strip_zeros(s.drop_first())
    } else {
        s
    }
}

/// The minimal spelling of a `u32`: its eight digits without leading zeros.
pub open spec fn spec_hex_min(v: u32) -> Seq<u8> {
    strip_zeros(spec_hex8(v))
}

/// True of a well-formed `0x`-prefixed spelling of a `u32`: the two prefix
/// bytes, at least one digit, every digit hex, and a value below 2^32.
pub open spec fn is_hex_u32(s: Seq<u8>) -> bool {
    &&& s.len() >= 3
    &&& s[0] == 48
    &&& s[1] == 120
    &&& forall|i: int| 2 <= i < s.len() ==> is_hex_digit(#[trigger] s[i])
    &&& hex_value(s.subrange(2, s.len() as int)) <= u32::MAX
}

/// The numeric value spelled by a well-formed `0x`-prefixed hex string.
pub open spec fn hex_u32_value(s: Seq<u8>) -> nat {
    hex_value(s.subrange(2, s.len() as int))
}

/// The value of a longer digit prefix is never smaller: each further digit
/// multiplies the value so far by 16 before adding.
pub proof fn lemma_hex_prefix_monotonic(s: Seq<u8>, i: int, j: int)
    requires
        0 <= i <= j <= s.len(),
    ensures
        hex_value(s.subrange(0, j)) >= hex_value(s.subrange(0, i)),
    decreases j - i,
{
    if i < j {
        lemma_hex_prefix_monotonic(s, i, j - 1);
        assert(s.subrange(0, j).drop_last() =~= s.subrange(0, j - 1));
    }
}

/// Every power of 16 is positive.
pub proof fn lemma_pow16_pos(n: nat)
    ensures
        pow16(n) >= 1,
    decreases n,
{
    if n > 0 {
        lemma_pow16_pos((n - 1) as nat);
    }
}

/// Splitting a digit string multiplies the left part's value by 16 for each
/// digit on the right.
pub proof fn lemma_hex_value_concat(u: Seq<u8>, v: Seq<u8>)
    ensures
        hex_value(u + v) == hex_value(u) * pow16(v.len()) + hex_value(v),
    decreases v.len(),
{
    if v.len() == 0 {
        assert(u + v =~= u);
        assert(pow16(0) == 1);
    } else {
        lemma_hex_value_concat(u, v.drop_last());
        assert((u + v).drop_last() =~= u + v.drop_last());
        let a = hex_value(u);
        let p1 = pow16((v.len() - 1) as nat);
        let w = hex_value(v.drop_last());
        let dv = hex_digit_value(v.last());
        assert((u + v).last() == v.last());
        assert(hex_value(u + v) == hex_value((u + v).drop_last()) * 16 + dv);
        assert(hex_value(u + v) == (a * p1 + w) * 16 + dv);
        assert((a * p1 + w) * 16 == a * (16 * p1) + w * 16) by (nonlinear_arith);
        assert(pow16(v.len()) == 16 * p1);
        assert(hex_value(v) == w * 16 + dv);
    }
}

/// Classifies one byte as a hex digit and gives its value.
fn hex_digit(b: u8) -> (r: Option<u8>)
    ensures
        match r {
            Some(v) => is_hex_digit(b) && v == hex_digit_value(b),
            None => !is_hex_digit(b),
        },
{
    if 48 <= b && b <= 57 {
        Some(b - 48)
    } else if 97 <= b && b <= 102 {
        Some(b - 87)
    } else if 65 <= b && b <= 70 {
        Some(b - 55)
    } else {
        None
    }
}

/// Parses a `0x`-prefixed hex identifier into a `u32`. Fails with
/// `ParseFailure` exactly on the inputs that are not a well-formed `u32`
/// spelling: a missing prefix, no digit, a stray byte, or a value past 2^32.
pub fn parse_hex_u32(s: &Vec<u8>) -> (r: Result<u32, ErrorKind>)
    ensures
        match r {
            Ok(v) => is_hex_u32(s@) && v as nat == hex_u32_value(s@),
            Err(e) => e == ErrorKind::ParseFailure && !is_hex_u32(s@),
        },
{
    if s.len() < 3 || s[0] != 48 || s[1] != 120 {
        return Err(ErrorKind::ParseFailure);
    }
    let ghost d: Seq<u8> = s@.subrange(2, s@.len() as int);
    let mut acc: u32 = 0;
    let mut k: usize = 2;
    while k < s.len()
        invariant
            2 <= k <= s@.len(),
            s@.len() >= 3,
            d == s@.subrange(2, s@.len() as int),
            forall|i: int| 2 <= i < k ==> is_hex_digit(#[trigger] s@[i]),
            acc as nat == hex_value(d.subrange(0, k - 2)),
        decreases s@.len() - k,
    {
        let digit = match hex_digit(s[k]) {
            Some(v) => v,
            None => {
                return Err(ErrorKind::ParseFailure);
            },
        };
        proof {
            assert(d.subrange(0, k - 2 + 1).drop_last() =~= d.subrange(0, k - 2));
            assert(d.subrange(0, k - 2 + 1).last() == s@[k as int]);
        }
        if acc > 0x0FFF_FFFF {
            proof {
                lemma_hex_prefix_monotonic(d, k - 2 + 1, d.len() as int);
                assert(d.subrange(0, d.len() as int) =~= d);
            }
            return Err(ErrorKind::ParseFailure);
        }
        acc = acc * 16 + digit as u32;
        k = k + 1;
    }
    proof {
        assert(d.subrange(0, d.len() as int) =~= d);
    }
    Ok(acc)
}

/// Formats a `u32` as exactly eight lower-case hex digits, as the `list`
/// report spells ids and bus addresses.
pub fn to_hex8(v: u32) -> (r: Vec<u8>)
    ensures
        r@ == spec_hex8(v),
        r@.len() == 8,
        forall|i: int| 0 <= i < 8 ==> is_lower_hex_digit(#[trigger] r@[i]),
        hex_value(r@) == v,
{
    proof {
        reveal_with_fuel(pow16, 9);
        vstd::arithmetic::div_mod::lemma_basic_div_specific_divisor(0x1_0000_0000);
        assert(v as int / 0x1_0000_0000 == 0);
        assert(pow16(8) == 0x1_0000_0000);
    }
    let mut r: Vec<u8> = Vec::new();
    let mut pow: u32 = 0x1000_0000;
    let mut k: usize = 0;
    while k < 8
        invariant
            0 <= k <= 8,
            r@.len() == k,
            k < 8 ==> pow == pow16((7 - k) as nat),
            forall|i: int| 0 <= i < k ==> is_lower_hex_digit(#[trigger] r@[i]),
            hex_value(r@) == v as nat / pow16((8 - k) as nat),
            r@ == spec_hex_digits(v as nat / pow16((8 - k) as nat), k as nat),
        decreases 8 - k,
    {
        proof {
            lemma_pow16_pos((7 - k) as nat);
            vstd::arithmetic::div_mod::lemma_div_denominator(
                v as int,
                pow16((7 - k) as nat) as int,
                16,
            );
            vstd::arithmetic::div_mod::lemma_fundamental_div_mod(
                v as int / pow16((7 - k) as nat) as int,
                16,
            );
            assert(pow16((8 - k) as nat) == 16 * pow16((7 - k) as nat));
        }
        let d: u32 = (v / pow) % 16;
        let b: u8 = if d < 10 {
            48 + d as u8
        } else {
            87 + d as u8
        };
        let ghost prev: Seq<u8> = r@;
        r.push(b);
        proof {
            assert(r@.drop_last() =~= prev);
            assert(v as nat / pow16((8 - k) as nat) == (v as nat / pow16((7 - k) as nat)) / 16);
            assert(b == lower_hex_digit_byte((v as nat / pow16((7 - k) as nat)) % 16));
            assert(r@ == spec_hex_digits(v as nat / pow16((7 - k) as nat), (k + 1) as nat));
        }
        pow = pow / 16;
        k = k + 1;
    }
    proof {
        reveal_with_fuel(pow16, 1);
        assert(pow16(0) == 1);
        assert(v as nat / pow16(0) == v as nat);
    }
    r
}

/// All-zero hex digits spell the value zero.
proof fn lemma_hex_value_zeros(u: Seq<u8>)
    requires
        forall|i: int| 0 <= i < u.len() ==> u[i] == 48,
    ensures
        hex_value(u) == 0,
    decreases u.len(),
{
    if u.len() > 0 {
        lemma_hex_value_zeros(u.drop_last());
    }
}

/// A digit string whose leading zeros are exactly the first `start` digits
/// strips down to its remainder.
proof fn lemma_strip_zeros_at(s: Seq<u8>, start: int)
    requires
        0 <= start < s.len(),
        forall|i: int| 0 <= i < start ==> s[i] == 48,
        start < s.len() - 1 ==> s[start] != 48,
    ensures
        strip_zeros(s) == s.subrange(start, s.len() as int),
    decreases start,
{
    if start == 0 {
        assert(s.subrange(0, s.len() as int) =~= s);
    } else {
        lemma_strip_zeros_at(s.drop_first(), start - 1);
        assert(s.drop_first().subrange(start - 1, s.drop_first().len() as int) =~= s.subrange(
            start,
            s.len() as int,
        ));
    }
}

/// Formats a `u32` in minimal lower-case hex, as the attest report spells the
/// queried component id: no leading zero unless the value is zero itself.
pub fn to_hex_min(v: u32) -> (r: Vec<u8>)
    ensures
        r@ == spec_hex_min(v),
        r@.len() >= 1,
        forall|i: int| 0 <= i < r@.len() ==> is_lower_hex_digit(#[trigger] r@[i]),
        hex_value(r@) == v,
        r@.len() > 1 ==> r@[0] != 48,
{
    let full = to_hex8(v);
    let mut start: usize = 0;
    while start < 7 && full[start] == 48
        invariant
            0 <= start <= 7,
            full@.len() == 8,
            forall|i: int| 0 <= i < start ==> full@[i] == 48,
        decreases 7 - start,
    {
        start = start + 1;
    }
    let mut r: Vec<u8> = Vec::new();
    let mut k: usize = start;
    while k < 8
        invariant
            start <= k <= 8,
            full@.len() == 8,
            r@ == full@.subrange(start as int, k as int),
        decreases 8 - k,
    {
        let ghost prev: Seq<u8> = r@;
        r.push(full[k]);
        proof {
            assert(prev.push(full@[k as int]) =~= full@.subrange(start as int, k + 1));
        }
        k = k + 1;
    }
    proof {
        lemma_hex_value_concat(full@.subrange(0, start as int), r@);
        lemma_hex_value_zeros(full@.subrange(0, start as int));
        assert(full@.subrange(0, start as int) + r@ =~= full@);
        lemma_strip_zeros_at(full@, start as int);
    }
    r
}

} // verus!
