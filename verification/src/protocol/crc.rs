//! CRC-16 of the P3 protocol.
//!
//! Polynomial 0x1021, seed 0xFFFF, most significant bit first, no reflection
//! and no final XOR, computed through a table of 256 entries. The checksum of
//! a frame covers the unescaped frame, SOR and EOR included, with the two CRC
//! bytes set to zero.

use vstd::prelude::*;
use crate::protocol::error::CrcError;
use crate::protocol::escape::is_escaped_value;
use crate::protocol::types::{le_u16, u16_from_le, ESCAPE, ESCAPE_OFFSET, OFFSET_CRC, SIZE_U16_FIELD};

verus! {

/// One bit step of the shift register: shift left, and fold the polynomial
/// in when a one falls out.
pub open spec fn crc_shift(c: u16) -> u16 {
    if c & 0x8000 != 0 {
        (c << 1) ^ 0x1021
    } else {
        c << 1
    }
}

/// `n` bit steps.
pub open spec fn crc_shift_n(c: u16, n: nat) -> u16
    decreases n,
{
    if n == 0 {
        c
    } else {
        crc_shift(crc_shift_n(c, (n - 1) as nat))
    }
}

/// Entry `i` of the lookup table: eight bit steps on `i` in the high byte.
pub open spec fn crc_table_entry(i: u8) -> u16 {
    crc_shift_n((i as u16) << 8, 8)
}

/// The register after one more data byte.
pub open spec fn crc_step(crc: u16, byte: u8) -> u16 {
    crc_table_entry((crc >> 8) as u8) ^ (crc << 8) ^ (byte as u16)
}

/// The CRC-16 of a byte sequence; 0xFFFF for the empty one.
pub open spec fn crc16(s: Seq<u8>) -> u16
    decreases s.len(),
{
    if s.len() == 0 {
        0xFFFF
    } else {
        crc_step(crc16(s.drop_last()), s.last())
    }
}

/// Puts a decoded byte in front of the decoding of the rest.
pub open spec fn crc_prepend(b: u8, rest: Result<Seq<u8>, CrcError>) -> Result<Seq<u8>, CrcError> {
    match rest {
        Ok(r) => Ok(seq![b] + r),
        Err(e) => Err(e),
    }
}

/// The unescaped form that the checksum is taken over. `at` is the position
/// of `w[0]` in the whole frame. An escape byte that ends the data stands for
/// itself; one followed by a byte outside 0xAA..=0xAF is a fault, reported
/// with its position.
pub open spec fn frame_unescaped(w: Seq<u8>, at: nat) -> Result<Seq<u8>, CrcError>
    decreases w.len(),
{
    if w.len() == 0 {
        Ok(Seq::<u8>::empty())
    } else if w[0] != 0x8Du8 || w.len() < 2 {
        crc_prepend(w[0], frame_unescaped(w.skip(1), at + 1))
    } else if !is_escaped_value(w[1]) {
        Err(CrcError::MalformedEscape { position: at as usize, next_byte: w[1] })
    } else {
        crc_prepend((w[1] - 0x20) as u8, frame_unescaped(w.skip(2), at + 2))
    }
}

/// An unescaped frame with its CRC field set to zero.
pub open spec fn with_zero_crc(u: Seq<u8>) -> Seq<u8>
    recommends
        u.len() >= 6,
{
    u.update(4, 0u8).update(5, 0u8)
}

/// The checksum that a wire frame should carry.
pub open spec fn frame_crc(wire: Seq<u8>) -> Result<u16, CrcError> {
    match frame_unescaped(wire, 0) {
        Err(e) => Err(e),
        Ok(u) => if u.len() < 6 {
            Err(CrcError::MessageTooShort { actual: u.len() as usize, min: 6 })
        } else {
            Ok(crc16(with_zero_crc(u)))
        },
    }
}

/// Whether the checksum that a wire frame carries is the one it should carry.
pub open spec fn frame_crc_valid(wire: Seq<u8>) -> Result<bool, CrcError> {
    match frame_unescaped(wire, 0) {
        Err(e) => Err(e),
        Ok(u) => if u.len() < 6 {
            Err(CrcError::MessageTooShort { actual: u.len() as usize, min: 6 })
        } else {
            Ok(le_u16(u[4], u[5]) == crc16(with_zero_crc(u)))
        },
    }
}

/// Builds the lookup table of 256 entries.
pub fn init_crc16_table() -> (table: Vec<u16>)
    ensures
        table@.len() == 256,
        forall|i: int| 0 <= i < 256 ==> table@[i] == crc_table_entry(i as u8),
{
    let mut table: Vec<u16> = Vec::new();
    let mut i: u16 = 0;
    while i < 256
        invariant
            i <= 256,
            table@.len() == i,
            forall|k: int| 0 <= k < i ==> table@[k] == crc_table_entry(k as u8),
        decreases 256 - i,
    {
        let mut crc: u16 = i << 8;
        let mut j: u8 = 0;
        assert(((i as u8) as u16) << 8 == i << 8) by (bit_vector)
            requires
                i < 256,
        ;
        while j < 8
            invariant
                j <= 8,
                crc == crc_shift_n(i << 8, j as nat),
            decreases 8 - j,
        {
            if (crc & 0x8000) != 0 {
                crc = (crc << 1) ^ 0x1021;
            } else {
                crc = crc << 1;
            }
            j += 1;
        }
        table.push(crc);
        i += 1;
    }
    table
}

/// Computes the CRC-16 of `data`. For a frame, `data` is the unescaped frame
/// with its CRC field set to zero. The result depends on the bytes alone.
pub fn calculate_crc(data: &[u8]) -> (crc: u16)
    ensures
        crc == crc16(data@),
{
    let table = init_crc16_table();
    let mut crc: u16 = 0xFFFF;
    let mut i: usize = 0;
    proof {
        assert(data@.take(0).len() == 0);
    }
    while i < data.len()
        invariant
            i <= data.len(),
            table@.len() == 256,
            forall|k: int| 0 <= k < 256 ==> table@[k] == crc_table_entry(k as u8),
            crc == crc16(data@.take(i as int)),
        decreases data.len() - i,
    {
        let byte = data[i];
        let index: u8 = (crc >> 8) as u8;
        assert(crc >> 8 < 256) by (bit_vector);
        proof {
            let next = data@.take(i + 1);
            assert(next.drop_last() == data@.take(i as int));
            assert(next.last() == byte);
        }
        crc = table[index as usize] ^ (crc << 8) ^ (byte as u16);
        i += 1;
    }
    proof {
        assert(data@.take(i as int) == data@);
    }
    crc
}

/// Removes the escape pairs of a frame before its checksum is taken. An
/// escape byte at the very end is kept as it stands; an escape byte followed
/// by a byte outside 0xAA..=0xAF fails with `MalformedEscape`.
pub fn unescape_message(escaped: &[u8]) -> (r: Result<Vec<u8>, CrcError>)
    ensures
        match r {
            Ok(v) => frame_unescaped(escaped@, 0) == Ok::<Seq<u8>, CrcError>(v@),
            Err(e) => frame_unescaped(escaped@, 0) == Err::<Seq<u8>, CrcError>(e),
        },
{
    let mut out: Vec<u8> = Vec::new();
    let mut i: usize = 0;
    proof {
        assert(escaped@.skip(0) == escaped@);
        assert forall|rest: Seq<u8>| out@ + rest == rest by {
            assert(out@ + rest =~= rest);
        }
    }
    while i < escaped.len()
        invariant
            i <= escaped.len(),
            frame_unescaped(escaped@, 0) == match frame_unescaped(
                escaped@.skip(i as int),
                i as nat,
            ) {
                Ok(rest) => Ok::<Seq<u8>, CrcError>(out@ + rest),
                Err(e) => Err::<Seq<u8>, CrcError>(e),
            },
        decreases escaped.len() - i,
    {
        let ghost rest = escaped@.skip(i as int);
        let ghost before = out@;
        assert(rest[0] == escaped@[i as int]);
        if escaped[i] == ESCAPE && i + 1 < escaped.len() {
            let next_byte = escaped[i + 1];
            assert(rest[1] == next_byte);
            if next_byte >= 0xAA && next_byte <= 0xAF {
                out.push(next_byte - ESCAPE_OFFSET);
                proof {
                    assert(rest.skip(2) == escaped@.skip(i + 2));
                    assert forall|tail: Seq<u8>|
                        before + (seq![(next_byte - 0x20) as u8] + tail) == out@ + tail by {
                        assert(before + (seq![(next_byte - 0x20) as u8] + tail) =~= out@ + tail);
                    }
                }
                i += 2;
            } else {
                return Err(CrcError::MalformedEscape { position: i, next_byte });
            }
        } else {
            out.push(escaped[i]);
            proof {
                assert(rest.skip(1) == escaped@.skip(i + 1));
                assert forall|tail: Seq<u8>| before + (seq![rest[0]] + tail) == out@ + tail by {
                    assert(before + (seq![rest[0]] + tail) =~= out@ + tail);
                }
            }
            i += 1;
        }
    }
    proof {
        assert(escaped@.skip(i as int).len() == 0);
        assert(out@ + Seq::<u8>::empty() == out@);
    }
    Ok(out)
}

/// Computes the checksum that a complete wire frame should carry: unescapes
/// it, sets the CRC field to zero and takes the CRC-16 of the whole.
///
/// Fails with `MalformedEscape` on a bad escape pair and with
/// `MessageTooShort` when the unescaped frame is shorter than six bytes.
pub fn calculate_message_crc(escaped_message: &[u8]) -> (r: Result<u16, CrcError>)
    ensures
        r == frame_crc(escaped_message@),
{
    let mut message = match unescape_message(escaped_message) {
        Ok(v) => v,
        Err(e) => {
            return Err(e);
        },
    };
    let min_size = OFFSET_CRC + SIZE_U16_FIELD;
    if message.len() < min_size {
        return Err(CrcError::MessageTooShort { actual: message.len(), min: min_size });
    }
    message.set(OFFSET_CRC, 0x00);
    message.set(OFFSET_CRC + 1, 0x00);
    Ok(calculate_crc(message.as_slice()))
}

/// Tells whether the CRC field of a complete wire frame holds the checksum
/// of the frame. Fails as `calculate_message_crc` does.
pub fn validate_crc(escaped_message: &[u8]) -> (r: Result<bool, CrcError>)
    ensures
        r == frame_crc_valid(escaped_message@),
{
    let message = match unescape_message(escaped_message) {
        Ok(v) => v,
        Err(e) => {
            return Err(e);
        },
    };
    let min_size = OFFSET_CRC + SIZE_U16_FIELD;
    if message.len() < min_size {
        return Err(CrcError::MessageTooShort { actual: message.len(), min: min_size });
    }
    let message_crc = u16_from_le(message[OFFSET_CRC], message[OFFSET_CRC + 1]);
    match calculate_message_crc(escaped_message) {
        Ok(calculated) => Ok(message_crc == calculated),
        Err(e) => Err(e),
    }
}

/// A bit step keeps different registers different.
proof fn lemma_shift_injective(a: u16, b: u16)
    requires
        crc_shift(a) == crc_shift(b),
    ensures
        a == b,
{
    assert((if a & 0x8000 != 0 {
        (a << 1) ^ 0x1021
    } else {
        a << 1
    }) == (if b & 0x8000 != 0 {
        (b << 1) ^ 0x1021
    } else {
        b << 1
    }) ==> a == b) by (bit_vector);
}

/// A bit step distributes over XOR.
proof fn lemma_shift_linear(a: u16, b: u16)
    ensures
        crc_shift(a ^ b) == crc_shift(a) ^ crc_shift(b),
{
    assert((if (a ^ b) & 0x8000 != 0 {
        ((a ^ b) << 1) ^ 0x1021
    } else {
        (a ^ b) << 1
    }) == (if a & 0x8000 != 0 {
        (a << 1) ^ 0x1021
    } else {
        a << 1
    }) ^ (if b & 0x8000 != 0 {
        (b << 1) ^ 0x1021
    } else {
        b << 1
    })) by (bit_vector);
}

proof fn lemma_shift_n_injective(a: u16, b: u16, n: nat)
    requires
        crc_shift_n(a, n) == crc_shift_n(b, n),
    ensures
        a == b,
    decreases n,
{
    if n > 0 {
        lemma_shift_injective(crc_shift_n(a, (n - 1) as nat), crc_shift_n(b, (n - 1) as nat));
        lemma_shift_n_injective(a, b, (n - 1) as nat);
    }
}

proof fn lemma_shift_n_linear(a: u16, b: u16, n: nat)
    ensures
        crc_shift_n(a ^ b, n) == crc_shift_n(a, n) ^ crc_shift_n(b, n),
    decreases n,
{
    if n > 0 {
        lemma_shift_n_linear(a, b, (n - 1) as nat);
        lemma_shift_linear(crc_shift_n(a, (n - 1) as nat), crc_shift_n(b, (n - 1) as nat));
    }
}

/// On a value below 256, up to eight bit steps only shift.
proof fn lemma_shift_n_low_byte(x: u16, n: nat)
    requires
        x < 256,
        n <= 8,
    ensures
        crc_shift_n(x, n) == x << (n as u16),
    decreases n,
{
    if n == 0 {
        assert(x << 0u16 == x) by (bit_vector);
    } else {
        lemma_shift_n_low_byte(x, (n - 1) as nat);
        let j = (n - 1) as u16;
        let k = n as u16;
        assert(x < 256 && j < 8 && k == j + 1 ==> (x << j) & 0x8000 == 0 && (x << j) << 1 == x
            << k) by (bit_vector);
    }
}

/// A step through the table is eight bit steps with the data byte folded in.
pub proof fn lemma_crc_step_is_eight_shifts(crc: u16, byte: u8)
    ensures
        crc_step(crc, byte) == crc_shift_n(crc, 8) ^ (byte as u16),
{
    let hi = ((crc >> 8) as u8 as u16) << 8;
    let lo = crc & 0xFF;
    assert(crc == (((crc >> 8) as u8 as u16) << 8) ^ (crc & 0xFF)) by (bit_vector);
    assert(crc & 0xFF < 256) by (bit_vector);
    assert((crc & 0xFF) << 8u16 == crc << 8) by (bit_vector);
    lemma_shift_n_linear(hi, lo, 8);
    lemma_shift_n_low_byte(lo, 8);
}

/// Two registers that differ still differ after the same data byte.
pub proof fn lemma_crc_step_injective(c1: u16, c2: u16, byte: u8)
    requires
        crc_step(c1, byte) == crc_step(c2, byte),
    ensures
        c1 == c2,
{
    lemma_crc_step_is_eight_shifts(c1, byte);
    lemma_crc_step_is_eight_shifts(c2, byte);
    let m1 = crc_shift_n(c1, 8);
    let m2 = crc_shift_n(c2, 8);
    let x = byte as u16;
    assert(m1 ^ x == m2 ^ x ==> m1 == m2) by (bit_vector);
    lemma_shift_n_injective(c1, c2, 8);
}

/// Changing one byte of the data, at any position, changes the CRC-16.
pub proof fn law_crc_detects_single_byte_change(s: Seq<u8>, i: int, b: u8)
    requires
        0 <= i < s.len(),
        b != s[i],
    ensures
        crc16(s.update(i, b)) != crc16(s),
    decreases s.len(),
{
    let t = s.update(i, b);
    if i == s.len() - 1 {
        assert(t.drop_last() == s.drop_last());
        let c = crc16(s.drop_last());
        lemma_crc_step_is_eight_shifts(c, b);
        lemma_crc_step_is_eight_shifts(c, s[i]);
        let m = crc_shift_n(c, 8);
        let x = b as u16;
        let y = s[i] as u16;
        assert(m ^ x == m ^ y ==> x == y) by (bit_vector);
    } else {
        assert(t.drop_last() == s.drop_last().update(i, b));
        assert(t.last() == s.last());
        law_crc_detects_single_byte_change(s.drop_last(), i, b);
        if crc16(t) == crc16(s) {
            lemma_crc_step_injective(crc16(t.drop_last()), crc16(s.drop_last()), s.last());
        }
    }
}

/// Changing one byte of an unescaped frame outside its CRC field changes
/// the checksum that the frame should carry.
pub proof fn law_frame_crc_detects_single_byte_change(u: Seq<u8>, i: int, b: u8)
    requires
        u.len() >= 6,
        0 <= i < u.len(),
        i != 4 && i != 5,
        b != u[i],
    ensures
        crc16(with_zero_crc(u.update(i, b))) != crc16(with_zero_crc(u)),
{
    assert(with_zero_crc(u.update(i, b)) == with_zero_crc(u).update(i, b));
    law_crc_detects_single_byte_change(with_zero_crc(u), i, b);
}

} // verus!
