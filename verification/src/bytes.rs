//! Numbers in network byte order: most significant byte first.

use vstd::prelude::*;

verus! {

/// The number that `bytes` stand for, most significant byte first.
pub open spec fn be_value(bytes: Seq<u8>) -> nat
    decreases bytes.len(),
{
    if bytes.len() == 0 {
        0
    } else {
        be_value(bytes.drop_last()) * 256 + bytes.last() as nat
    }
}

/// The lowest `count` bytes of `value`, most significant byte first.
pub open spec fn be_bytes(value: nat, count: nat) -> Seq<u8>
    decreases count,
{
    if count == 0 {
        Seq::empty()
    } else {
        be_bytes(value / 256, (count - 1) as nat).push((value % 256) as u8)
    }
}

/// Numbers that `count` bytes can stand for.
pub open spec fn be_limit(count: nat) -> nat
    decreases count,
{
    if count == 0 {
        1
    } else {
        be_limit((count - 1) as nat) * 256
    }
}

/// Encoding gives as many bytes as asked for, and decoding gives the number back.
pub proof fn law_decode_encode(value: nat, count: nat)
    requires
        value < be_limit(count),
    ensures
        be_bytes(value, count).len() == count,
        be_value(be_bytes(value, count)) == value,
    decreases count,
{
    if count > 0 {
        law_decode_encode(value / 256, (count - 1) as nat);
        assert(be_bytes(value, count).drop_last() =~= be_bytes(value / 256, (count - 1) as nat));
    }
}

/// Every byte string is the encoding of the number that it stands for, which is
/// below the limit for its length.
pub proof fn law_encode_decode(bytes: Seq<u8>)
    ensures
        be_value(bytes) < be_limit(bytes.len()),
        be_bytes(be_value(bytes), bytes.len()) == bytes,
    decreases bytes.len(),
{
    if bytes.len() > 0 {
        law_encode_decode(bytes.drop_last());
        assert(bytes.drop_last().push(bytes.last()) =~= bytes);
    } else {
        assert(be_bytes(0, 0) =~= bytes);
    }
}

/// The number in two bytes.
pub fn be_u16(b0: u8, b1: u8) -> (value: u16)
    ensures
        value == be_value(seq![b0, b1]),
        value == b0 * 256 + b1,
{
    proof {
        reveal_with_fuel(be_value, 3);
        assert(seq![b0, b1].drop_last() =~= seq![b0]);
        assert(seq![b0].drop_last() =~= Seq::empty());
    }
    b0 as u16 * 256 + b1 as u16
}

/// The number in four bytes.
pub fn be_u32(b0: u8, b1: u8, b2: u8, b3: u8) -> (value: u32)
    ensures
        value == be_value(seq![b0, b1, b2, b3]),
        value == b0 * 0x100_0000 + b1 * 0x1_0000 + b2 * 0x100 + b3,
{
    let high: u16 = be_u16(b0, b1);
    proof {
        reveal_with_fuel(be_value, 3);
        assert(seq![b0, b1, b2, b3].drop_last() =~= seq![b0, b1, b2]);
        assert(seq![b0, b1, b2].drop_last() =~= seq![b0, b1]);
    }
    high as u32 * 0x10000 + b2 as u32 * 256 + b3 as u32
}

/// The number in the first eight bytes.
pub fn be_u64(bytes: &[u8]) -> (value: u64)
    requires
        bytes@.len() >= 8,
    ensures
        value == be_value(bytes@.take(8)),
        value == bytes@[0] * 0x100_0000_0000_0000 + bytes@[1] * 0x1_0000_0000_0000 + bytes@[2]
            * 0x100_0000_0000 + bytes@[3] * 0x1_0000_0000 + bytes@[4] * 0x100_0000 + bytes@[5]
            * 0x1_0000 + bytes@[6] * 0x100 + bytes@[7],
{
    let high: u32 = be_u32(bytes[0], bytes[1], bytes[2], bytes[3]);
    proof {
        reveal_with_fuel(be_value, 5);
        let s = bytes@.take(8);
        assert(s.drop_last().drop_last().drop_last().drop_last() =~= seq![
            s[0],
            s[1],
            s[2],
            s[3],
        ]);
    }
    high as u64 * 0x1_0000_0000 + bytes[4] as u64 * 0x100_0000 + bytes[5] as u64 * 0x1_0000
        + bytes[6] as u64 * 0x100 + bytes[7] as u64
}

/// Appends the two bytes of `value`.
pub fn push_be_u16(out: &mut Vec<u8>, value: u16)
    ensures
        final(out)@ == old(out)@ + be_bytes(value as nat, 2),
        final(out)@ == old(out)@.push((value / 0x100) as u8).push((value % 0x100) as u8),
{
    proof {
        reveal_with_fuel(be_bytes, 3);
        assert(be_bytes(value as nat, 2) =~= seq![(value / 256) as u8, (value % 256) as u8]);
    }
    out.push((value / 256) as u8);
    out.push((value % 256) as u8);
}

/// Appends the four bytes of `value`.
pub fn push_be_u32(out: &mut Vec<u8>, value: u32)
    ensures
        final(out)@ == old(out)@ + be_bytes(value as nat, 4),
        final(out)@ == old(out)@.push((value / 0x100_0000) as u8).push(
            (value / 0x1_0000 % 0x100) as u8,
        ).push((value / 0x100 % 0x100) as u8).push((value % 0x100) as u8),
{
    let v1: u32 = value / 256;
    let v2: u32 = v1 / 256;
    let v3: u32 = v2 / 256;
    proof {
        assert(be_bytes(0, 0) =~= Seq::empty());
        assert(be_bytes(v3 as nat, 1) =~= seq![v3 as u8]);
        assert(be_bytes(v2 as nat, 2) =~= seq![v3 as u8, (v2 % 256) as u8]);
        assert(be_bytes(v1 as nat, 3) =~= seq![v3 as u8, (v2 % 256) as u8, (v1 % 256) as u8]);
        assert(be_bytes(value as nat, 4) =~= seq![
            v3 as u8,
            (v2 % 256) as u8,
            (v1 % 256) as u8,
            (value % 256) as u8,
        ]);
    }
    out.push(v3 as u8);
    out.push((v2 % 256) as u8);
    out.push((v1 % 256) as u8);
    out.push((value % 256) as u8);
}

/// A single byte stands for itself.
pub proof fn law_single_byte(byte: u8)
    ensures
        be_value(seq![byte]) == byte,
{
    assert(seq![byte].drop_last() =~= Seq::empty());
    assert(be_value(Seq::empty()) == 0);
}

/// Bytes that come first count for more: each byte that follows makes what came before
/// it worth 256 times as much.
pub proof fn law_earlier_bytes_count_more(first: Seq<u8>, second: Seq<u8>)
    ensures
        be_value(first + second) == be_value(first) * be_limit(second.len()) + be_value(second),
        be_limit(0) == 1,
        be_limit(second.len() + 1) == 256 * be_limit(second.len()),
    decreases second.len(),
{
    if second.len() == 0 {
        assert(first + second =~= first);
        assert(be_limit(0) == 1);
        assert(be_value(first) * 1 == be_value(first)) by (nonlinear_arith);
    } else {
        let shorter = second.drop_last();
        assert((first + second).drop_last() =~= first + shorter);
        law_earlier_bytes_count_more(first, shorter);
        let a = be_value(first) as int;
        let l = be_limit(shorter.len()) as int;
        let v = be_value(shorter) as int;
        assert((a * l + v) * 256 == a * (l * 256) + v * 256) by (nonlinear_arith);
        assert(be_limit(second.len()) == l * 256);
        assert((first + second).last() == second.last());
        assert(be_value(first + second) == (a * l + v) * 256 + second.last());
        assert(be_value(second) == v * 256 + second.last());
    }
}

/// Two bytes are the quotient and the remainder of the number by 256.
pub proof fn law_two_bytes(b0: u8, b1: u8)
    ensures
        be_value(seq![b0, b1]) == b0 * 256 + b1,
        be_bytes((b0 * 256 + b1) as nat, 2) == seq![b0, b1],
{
    law_single_byte(b0);
    law_single_byte(b1);
    law_earlier_bytes_count_more(seq![b0], seq![b1]);
    assert(seq![b0] + seq![b1] =~= seq![b0, b1]);
    law_earlier_bytes_count_more(Seq::empty(), Seq::empty());
    law_encode_decode(seq![b0, b1]);
}

/// Four bytes are two bytes and two bytes.
pub proof fn law_four_bytes(b0: u8, b1: u8, b2: u8, b3: u8)
    ensures
        be_value(seq![b0, b1, b2, b3]) == b0 * 0x100_0000 + b1 * 0x1_0000 + b2 * 0x100 + b3,
        be_bytes((b0 * 0x100_0000 + b1 * 0x1_0000 + b2 * 0x100 + b3) as nat, 4) == seq![
            b0,
            b1,
            b2,
            b3,
        ],
{
    law_two_bytes(b0, b1);
    law_two_bytes(b2, b3);
    law_earlier_bytes_count_more(Seq::empty(), Seq::empty());
    law_earlier_bytes_count_more(Seq::empty(), seq![b0]);
    law_earlier_bytes_count_more(seq![b0, b1], seq![b2, b3]);
    assert(be_limit(1) == 256);
    assert(be_limit(2) == 0x1_0000);
    let high = be_value(seq![b0, b1]);
    assert(high * be_limit(2) == high * 0x1_0000) by (nonlinear_arith)
        requires
            be_limit(2) == 0x1_0000,
    ;
    assert(seq![b0, b1] + seq![b2, b3] =~= seq![b0, b1, b2, b3]);
    law_encode_decode(seq![b0, b1, b2, b3]);
}

} // verus!
