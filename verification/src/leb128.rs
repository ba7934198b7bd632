//! Signed LEB128, the variable-length integer encoding of WebAssembly.

use vstd::prelude::*;

verus! {

/// Whether a group of seven bits, read as the last byte, ends the encoding of `rest`.
pub open spec fn sleb_done(low: int, rest: int) -> bool {
    (rest == 0 && low < 64) || (rest == -1 && low >= 64)
}

pub open spec fn sleb_measure(v: int) -> nat {
    if v >= 0 {
        v as nat
    } else {
        (-v - 1) as nat
    }
}

/// The signed LEB128 encoding of `v`: seven bits at a time, least significant first,
/// the high bit of each byte set when more bytes follow, stopping as soon as the
/// remaining bits are all copies of the sign bit of the last group.
pub open spec fn sleb128(v: int) -> Seq<u8>
    decreases sleb_measure(v),
{
    let low = v % 128;
    let rest = v / 128;
    if sleb_done(low, rest) {
        seq![low as u8]
    } else {
        seq![(low + 128) as u8] + sleb128(rest)
    }
}

/// The value of a signed LEB128 byte sequence.
pub open spec fn sleb128_decode(b: Seq<u8>) -> int
    decreases b.len(),
{
    if b.len() == 0 {
        0
    } else if b[0] >= 128 {
        (b[0] - 128) + 128 * sleb128_decode(b.drop_first())
    } else if b[0] >= 64 {
        b[0] - 128
    } else {
        b[0] as int
    }
}

/// Decoding an encoding gives the value back.
pub proof fn law_sleb128_roundtrip(v: int)
    ensures
        sleb128_decode(sleb128(v)) == v,
        sleb128(v).len() >= 1,
    decreases sleb_measure(v),
{
    let low = v % 128;
    let rest = v / 128;
    assert(v == rest * 128 + low);
    if !sleb_done(low, rest) {
        law_sleb128_roundtrip(rest);
        let s = seq![(low + 128) as u8] + sleb128(rest);
        assert(s.drop_first() =~= sleb128(rest));
    }
}

/// Only the last byte of an encoding has its high bit clear.
pub proof fn law_sleb128_continuation(v: int)
    ensures
        forall|i: int|
            0 <= i < sleb128(v).len() ==> (#[trigger] sleb128(v)[i] < 128 <==> i == sleb128(v).len()
                - 1),
    decreases sleb_measure(v),
{
    let low = v % 128;
    let rest = v / 128;
    if !sleb_done(low, rest) {
        law_sleb128_continuation(rest);
        law_sleb128_roundtrip(rest);
        let s = seq![(low + 128) as u8] + sleb128(rest);
        assert forall|i: int| 0 <= i < s.len() implies (#[trigger] s[i] < 128 <==> i == s.len() - 1) by {
            if i > 0 {
                assert(s[i] == sleb128(rest)[i - 1]);
            }
        }
    }
}

/// A byte sequence shaped as a signed LEB128 encoding: not empty, and only its
/// last byte has the high bit clear.
pub open spec fn sleb_shaped(b: Seq<u8>) -> bool {
    b.len() >= 1 && forall|i: int| 0 <= i < b.len() ==> (#[trigger] b[i] < 128 <==> i == b.len() - 1)
}

/// 128 to the power `k`.
pub open spec fn pow128(k: nat) -> int
    decreases k,
{
    if k == 0 {
        1
    } else {
        128 * pow128((k - 1) as nat)
    }
}

/// A value that `k + 1` groups of seven bits can hold takes at most `k + 1` bytes.
pub proof fn law_sleb128_length(v: int, k: nat)
    requires
        -64 * pow128(k) <= v < 64 * pow128(k),
    ensures
        sleb128(v).len() <= k + 1,
    decreases k,
{
    let low = v % 128;
    let rest = v / 128;
    assert(v == rest * 128 + low);
    if !sleb_done(low, rest) {
        if k == 0 {
            if v >= 0 {
                assert(rest == 0 && low < 64);
            } else {
                assert(rest == -1 && low >= 64);
            }
        } else {
            let p = pow128((k - 1) as nat);
            assert(pow128(k) == 128 * p);
            assert(-64 * p <= rest < 64 * p);
            law_sleb128_length(rest, (k - 1) as nat);
        }
    }
}

/// A 32-bit integer takes one to five bytes.
pub proof fn law_sleb128_i32_length(v: i32)
    ensures
        1 <= sleb128(v as int).len() <= 5,
{
    reveal_with_fuel(pow128, 5);
    law_sleb128_length(v as int, 4);
    law_sleb128_roundtrip(v as int);
}

/// The encoding is the shortest: every byte sequence shaped as an encoding that
/// decodes to `v` is at least as long.
pub proof fn law_sleb128_shortest(v: int, b: Seq<u8>)
    requires
        sleb_shaped(b),
        sleb128_decode(b) == v,
    ensures
        sleb128(v).len() <= b.len(),
    decreases b.len(),
{
    let low = v % 128;
    let rest = v / 128;
    assert(v == rest * 128 + low);
    if b.len() == 1 {
        assert(b[0] < 128);
        if v >= 0 {
            assert(rest == 0 && low < 64);
        } else {
            assert(rest == -1 && low >= 64);
        }
    } else {
        assert(b[0] >= 128);
        let t = b.drop_first();
        assert forall|i: int| 0 <= i < t.len() implies (#[trigger] t[i] < 128 <==> i == t.len() - 1) by {
            assert(t[i] == b[i + 1]);
        }
        let d = sleb128_decode(t);
        assert(v == (b[0] - 128) + 128 * d);
        assert(rest == d && low == b[0] - 128);
        if !sleb_done(low, rest) {
            law_sleb128_shortest(d, t);
        }
    }
}

/// Appends the signed LEB128 encoding of a 32-bit integer.
pub fn push_sleb128_i32(out: &mut Vec<u8>, value: i32)
    ensures
        final(out)@ == old(out)@ + sleb128(value as int),
{
    let mut value: i32 = value;
    let ghost start = out@;
    let ghost orig = value as int;
    loop
        invariant_except_break
            start + sleb128(orig) == out@ + sleb128(value as int),
        ensures
            out@ == start + sleb128(orig),
        decreases sleb_measure(value as int),
    {
        let ghost v = value;
        let mut byte: u8 = (value & 0x7f) as u8;
        value = value >> 7;
        proof {
            assert((v & 0x7f) as u8 as int == (v as int) % 128) by (bit_vector);
            assert((v >> 7) as int == (v as int) / 128) by (bit_vector);
            assert(((v & 0x7f) as u8 & 0x40 == 0) == (((v & 0x7f) as u8) < 64)) by (bit_vector);
        }
        let more = !((value == 0 && (byte & 0x40) == 0) || (value == -1 && (byte & 0x40) != 0));
        let ghost low = (v as int) % 128;
        assert(byte as int == low);
        assert(more == !sleb_done(low, value as int));
        if more {
            assert((byte | 0x80) as int == byte as int + 128) by (bit_vector)
                requires
                    byte < 128,
            ;
            byte = byte | 0x80;
        }
        let ghost before = out@;
        out.push(byte);
        if !more {
            assert(out@ =~= before + sleb128(v as int));
            assert(start + sleb128(orig) == out@);
            break;
        }
        assert(sleb128(v as int) =~= seq![byte] + sleb128(value as int));
        assert(before + sleb128(v as int) =~= out@ + sleb128(value as int));
    }
}

} // verus!
