//! Text that the library writes: decimal and hexadecimal numbers, and
//! strings decoded from bytes.

use vstd::prelude::*;
use vstd::string::StringExecFns;
use vstd::utf8::{decode_utf8, valid_utf8};

verus! {

/// The sixteen upper-case hexadecimal digits.
pub open spec fn hex_digits_upper() -> Seq<char> {
    seq!['0', '1', '2', '3', '4', '5', '6', '7', '8', '9', 'A', 'B', 'C', 'D', 'E', 'F']
}

/// The sixteen lower-case hexadecimal digits.
pub open spec fn hex_digits_lower() -> Seq<char> {
    seq!['0', '1', '2', '3', '4', '5', '6', '7', '8', '9', 'a', 'b', 'c', 'd', 'e', 'f']
}

/// The two upper-case hexadecimal digits of a byte, high nibble first.
pub open spec fn hex_pair_upper(b: u8) -> Seq<char> {
    seq![hex_digits_upper()[b as int / 16], hex_digits_upper()[b as int % 16]]
}

/// The upper-case hexadecimal text of a byte sequence, in the order of the
/// bytes, without separators.
pub open spec fn hex_upper(bytes: Seq<u8>) -> Seq<char>
    decreases bytes.len(),
{
    if bytes.len() == 0 {
        Seq::<char>::empty()
    } else {
        hex_upper(bytes.drop_last()) + hex_pair_upper(bytes.last())
    }
}

/// The decimal text of a number, without leading zeros.
pub open spec fn decimal(n: nat) -> Seq<char>
    decreases n,
{
    if n < 10 {
        seq![hex_digits_upper()[n as int]]
    } else {
        decimal(n / 10).push(hex_digits_upper()[(n % 10) as int])
    }
}

/// The decimal text of a number, padded with zeros on the left to `width`
/// digits; longer numbers are not cut.
pub open spec fn decimal_padded(n: nat, width: nat) -> Seq<char>
    decreases width,
{
    if width <= decimal(n).len() {
        decimal(n)
    } else {
        seq!['0'] + decimal_padded(n, (width - 1) as nat)
    }
}

/// One upper-case hexadecimal digit as a string.
fn hex_digit_upper_str(n: u8) -> (s: &'static str)
    requires
        n < 16,
    ensures
        s@ == seq![hex_digits_upper()[n as int]],
{
    proof {
        reveal_strlit("0");
        reveal_strlit("1");
        reveal_strlit("2");
        reveal_strlit("3");
        reveal_strlit("4");
        reveal_strlit("5");
        reveal_strlit("6");
        reveal_strlit("7");
        reveal_strlit("8");
        reveal_strlit("9");
        reveal_strlit("A");
        reveal_strlit("B");
        reveal_strlit("C");
        reveal_strlit("D");
        reveal_strlit("E");
        reveal_strlit("F");
    }
    let s = if n == 0 {
        "0"
    } else if n == 1 {
        "1"
    } else if n == 2 {
        "2"
    } else if n == 3 {
        "3"
    } else if n == 4 {
        "4"
    } else if n == 5 {
        "5"
    } else if n == 6 {
        "6"
    } else if n == 7 {
        "7"
    } else if n == 8 {
        "8"
    } else if n == 9 {
        "9"
    } else if n == 10 {
        "A"
    } else if n == 11 {
        "B"
    } else if n == 12 {
        "C"
    } else if n == 13 {
        "D"
    } else if n == 14 {
        "E"
    } else {
        "F"
    };
    assert(s@ =~= seq![hex_digits_upper()[n as int]]);
    s
}

/// Appends the two upper-case hexadecimal digits of a byte.
pub fn push_hex_pair_upper(out: &mut String, b: u8)
    ensures
        final(out)@ == old(out)@ + hex_pair_upper(b),
{
    let hi = hex_digit_upper_str(b / 16);
    let lo = hex_digit_upper_str(b % 16);
    out.append(hi);
    out.append(lo);
    assert(out@ =~= old(out)@ + hex_pair_upper(b));
}

/// Writes a byte sequence as upper-case hexadecimal text, two digits a byte,
/// in the order of the bytes.
pub fn format_hex_upper(bytes: &[u8]) -> (s: String)
    ensures
        s@ == hex_upper(bytes@),
        s@.len() == 2 * bytes@.len(),
{
    let mut out = String::new();
    let mut i: usize = 0;
    proof {
        assert(bytes@.take(0).len() == 0);
    }
    while i < bytes.len()
        invariant
            i <= bytes.len(),
            out@ == hex_upper(bytes@.take(i as int)),
            out@.len() == 2 * i,
        decreases bytes.len() - i,
    {
        proof {
            let next = bytes@.take(i + 1);
            assert(next.drop_last() == bytes@.take(i as int));
            assert(next.last() == bytes@[i as int]);
        }
        push_hex_pair_upper(&mut out, bytes[i]);
        i += 1;
    }
    proof {
        assert(bytes@.take(i as int) == bytes@);
    }
    out
}

/// Appends the decimal text of a number.
pub fn push_decimal(out: &mut String, n: u64)
    ensures
        final(out)@ == old(out)@ + decimal(n as nat),
    decreases n,
{
    if n < 10 {
        let d = hex_digit_upper_str(n as u8);
        out.append(d);
    } else {
        push_decimal(out, n / 10);
        let d = hex_digit_upper_str((n % 10) as u8);
        out.append(d);
        assert(out@ =~= old(out)@ + decimal(n as nat));
    }
}

/// Writes a number as decimal text.
pub fn format_decimal(n: u64) -> (s: String)
    ensures
        s@ == decimal(n as nat),
{
    let mut out = String::new();
    push_decimal(&mut out, n);
    assert(out@ =~= decimal(n as nat));
    out
}

/// The number of decimal digits of a number.
pub fn decimal_width(n: u64) -> (w: usize)
    ensures
        w == decimal(n as nat).len(),
        1 <= w <= 20,
    decreases n,
{
    if n < 10 {
        1
    } else {
        let w = decimal_width(n / 10);
        proof {
            lemma_decimal_len_bound(n as nat);
        }
        w + 1
    }
}

/// A number below 10 to the power of `k` has at most `k` digits; this states
/// it for 64-bit values.
pub proof fn lemma_decimal_len_bound(n: nat)
    requires
        n <= u64::MAX,
    ensures
        1 <= decimal(n).len() <= 20,
{
    reveal_with_fuel(decimal, 21);
}

/// Appends the decimal text of a number, padded with zeros on the left to
/// at least `width` digits.
pub fn push_decimal_padded(out: &mut String, n: u64, width: usize)
    ensures
        final(out)@ == old(out)@ + decimal_padded(n as nat, width as nat),
{
    let digits = decimal_width(n);
    let mut w: usize = width;
    let ghost start = out@;
    proof {
        reveal_strlit("0");
        assert(start + Seq::<char>::empty() =~= start);
    }
    let ghost mut zeros: Seq<char> = Seq::empty();
    while w > digits
        invariant
            digits == decimal(n as nat).len(),
            out@ == start + zeros,
            zeros + decimal_padded(n as nat, w as nat) == decimal_padded(n as nat, width as nat),
            "0"@ == seq!['0'],
        decreases w,
    {
        out.append("0");
        proof {
            let rest = decimal_padded(n as nat, (w - 1) as nat);
            assert(zeros + (seq!['0'] + rest) =~= zeros.push('0') + rest);
            zeros = zeros.push('0');
            assert(out@ =~= start + zeros);
        }
        w -= 1;
    }
    push_decimal(out, n);
    assert(out@ =~= start + decimal_padded(n as nat, width as nat)) by {
        assert(decimal_padded(n as nat, w as nat) == decimal(n as nat));
        assert((start + zeros) + decimal(n as nat) =~= start + (zeros + decimal(n as nat)));
    }
}

/// Decodes UTF-8 bytes into a string; `None` when the bytes are not valid
/// UTF-8.
///
/// Trusted: calls `String::from_utf8` of std. The contract states that the
/// call succeeds exactly on valid UTF-8 and that the string then holds the
/// scalar values that the bytes encode.
#[verifier::external_body]
pub(crate) fn string_from_utf8(bytes: Vec<u8>) -> (r: Option<String>)
    ensures
        r is Some <==> valid_utf8(bytes@),
        r matches Some(s) ==> s@ == decode_utf8(bytes@),
{
    match String::from_utf8(bytes) {
        Ok(s) => Some(s),
        Err(_) => None,
    }
}

} // verus!
