//! Decimal numbers as text: writing an integer out, and reading one back.
use vstd::prelude::*;

verus! {

/// The character of the decimal digit `d`.
pub open spec fn digit_char(d: int) -> char
    recommends
        0 <= d < 10,
{
    ((48 + d) as u8) as char
}

/// The decimal digits of `n`, most significant first, without leading zeros.
pub open spec fn decimal(n: nat) -> Seq<char>
    decreases n,
{
    if n < 10 {
        seq![digit_char(n as int)]
    } else {
        decimal(n / 10).push(digit_char((n % 10) as int))
    }
}

/// The decimal form of an integer: a minus sign before the digits of a
/// negative one.
pub open spec fn signed_decimal(i: int) -> Seq<char> {
    if i < 0 {
        seq!['-'] + decimal((-i) as nat)
    } else {
        decimal(i as nat)
    }
}

/// The value of a decimal digit character.
pub open spec fn digit_value(c: char) -> Option<nat> {
    if '0' <= c <= '9' {
        Some((c as u32 - 48) as nat)
    } else {
        None
    }
}

/// The number that a non-empty run of decimal digits denotes; `None` where `s`
/// is empty or holds anything but digits.
pub open spec fn digits_value(s: Seq<char>) -> Option<nat>
    decreases s.len(),
{
    if s.len() == 0 {
        None
    } else if s.len() == 1 {
        digit_value(s[0])
    } else {
        match (digits_value(s.drop_last()), digit_value(s.last())) {
            (Some(high), Some(low)) => Some(10 * high + low),
            _ => None,
        }
    }
}

/// The 32-bit integer that `s` denotes: an optional sign, then at least one
/// digit, and a value in range. Anything else denotes none.
pub open spec fn parsed_i32(s: Seq<char>) -> Option<i32> {
    let negative = s.len() > 0 && s[0] == '-';
    let signed = s.len() > 0 && (s[0] == '-' || s[0] == '+');
    let body = if signed {
        s.drop_first()
    } else {
        s
    };
    match digits_value(body) {
        Some(v) => {
            let value = if negative {
                -(v as int)
            } else {
                v as int
            };
            if i32::MIN <= value <= i32::MAX {
                Some(value as i32)
            } else {
                None
            }
        },
        None => None,
    }
}

/// Appends the decimal digits of `n` to `out`.
pub fn push_decimal(out: &mut String, n: u64)
    ensures
        final(out)@ == old(out)@ + decimal(n as nat),
    decreases n,
{
    if n >= 10 {
        push_decimal(out, n / 10);
    }
    let d: u8 = (n % 10) as u8;
    out.push((48 + d) as char);
    assert(final(out)@ =~= old(out)@ + decimal(n as nat));
}

/// Appends the decimal form of `i` to `out`.
pub fn push_signed_decimal(out: &mut String, i: i32)
    ensures
        final(out)@ == old(out)@ + signed_decimal(i as int),
{
    if i < 0 {
        out.push('-');
        let magnitude: u64 = (-(i as i64)) as u64;
        push_decimal(out, magnitude);
        assert(final(out)@ =~= old(out)@ + signed_decimal(i as int));
    } else {
        push_decimal(out, i as u64);
    }
}

/// The decimal form of `i` as a string.
pub fn i32_text(i: i32) -> (out: String)
    ensures
        out@ == signed_decimal(i as int),
{
    let mut out = String::new();
    push_signed_decimal(&mut out, i);
    assert(out@ =~= signed_decimal(i as int));
    out
}

proof fn lemma_digits_value_prefix(s: Seq<char>, i: int)
    requires
        1 <= i <= s.len(),
        digits_value(s) is Some,
    ensures
        digits_value(s.take(i)) is Some,
        digits_value(s.take(i))->0 <= digits_value(s)->0,
    decreases s.len() - i,
{
    if i == s.len() {
        assert(s.take(i) =~= s);
    } else {
        assert(s.drop_last().take(i) =~= s.take(i));
        lemma_digits_value_prefix(s.drop_last(), i);
    }
}

/// Reads a 32-bit integer from `s`.
#[verifier::loop_isolation(false)]
pub fn parse_i32(s: &Vec<char>) -> (out: Option<i32>)
    ensures
        out == parsed_i32(s@),
{
    let n = s.len();
    let negative = n > 0 && s[0] == '-';
    let signed = n > 0 && (s[0] == '-' || s[0] == '+');
    let start: usize = if signed {
        1
    } else {
        0
    };
    let ghost body = s@.skip(start as int);
    assert(signed ==> body =~= s@.drop_first());
    assert(!signed ==> body =~= s@);
    if start == n {
        return None;
    }
    let mut acc: u64 = 0;
    let mut i: usize = start;
    while i < n
        invariant
            start <= i <= n,
            n == s.len(),
            body == s@.skip(start as int),
            acc <= 0x8000_0000,
            i == start ==> acc == 0,
            i > start ==> digits_value(body.take(i - start)) == Some(acc as nat),
        decreases n - i,
    {
        let c = s[i];
        let ghost piece = body.take(i - start + 1);
        proof {
            assert(piece.last() == c);
            assert(piece.drop_last() =~= body.take(i - start));
        }
        if !('0' <= c && c <= '9') {
            proof {
                assert(digits_value(piece) is None);
                if digits_value(body) is Some {
                    lemma_digits_value_prefix(body, i - start + 1);
                }
            }
            return None;
        }
        let d: u64 = (c as u32 - 48) as u64;
        let next: u64 = acc * 10 + d;
        assert(digits_value(piece) == Some(next as nat));
        if next > 0x8000_0000 {
            proof {
                if digits_value(body) is Some {
                    lemma_digits_value_prefix(body, i - start + 1);
                }
            }
            return None;
        }
        acc = next;
        i += 1;
    }
    assert(body.take(n - start) =~= body);
    if negative {
        let value: i64 = -(acc as i64);
        Some(value as i32)
    } else if acc > 0x7fff_ffff {
        None
    } else {
        Some(acc as i32)
    }
}

} // verus!
