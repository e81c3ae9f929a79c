//! Byte strings: little-endian integers and length-prefixed text.

use vstd::prelude::*;
use vstd::string::*;
use vstd::utf8::encode_utf8;

verus! {

/// `n` in `width` bytes, the least significant first.
pub open spec fn le_bytes(n: nat, width: nat) -> Seq<u8>
    decreases width,
{
    if width == 0 {
        Seq::empty()
    } else {
        seq![(n % 256) as u8] + le_bytes(n / 256, (width - 1) as nat)
    }
}

/// The number whose little-endian bytes these are.
pub open spec fn from_le_bytes(bytes: Seq<u8>) -> nat
    decreases bytes.len(),
{
    if bytes.len() == 0 {
        0
    } else {
        bytes[0] as nat + 256 * from_le_bytes(bytes.drop_first())
    }
}

/// The number of values that `width` bytes can hold.
pub open spec fn byte_range(width: nat) -> nat
    decreases width,
{
    if width == 0 {
        1
    } else {
        256 * byte_range((width - 1) as nat)
    }
}

pub proof fn lemma_byte_ranges()
    ensures
        byte_range(4) == 0x1_0000_0000,
        byte_range(8) == 0x1_0000_0000_0000_0000,
        byte_range(16) == 0x1_0000_0000_0000_0000_0000_0000_0000_0000,
{
    reveal_with_fuel(byte_range, 17);
}

/// Reading little-endian bytes gives back the number that was written, where it fits.
pub proof fn law_le_bytes_round_trip(n: nat, width: nat)
    requires
        n < byte_range(width),
    ensures
        le_bytes(n, width).len() == width,
        from_le_bytes(le_bytes(n, width)) == n,
    decreases width,
{
    if width > 0 {
        law_le_bytes_round_trip(n / 256, (width - 1) as nat);
        assert(le_bytes(n, width).drop_first() =~= le_bytes(n / 256, (width - 1) as nat));
    }
}

pub proof fn lemma_le_bytes_len(n: nat, width: nat)
    ensures
        le_bytes(n, width).len() == width,
    decreases width,
{
    if width > 0 {
        lemma_le_bytes_len(n / 256, (width - 1) as nat);
    }
}

/// Writing the number that bytes stand for gives back the bytes.
pub proof fn lemma_from_le_bytes_round_trip(bytes: Seq<u8>)
    ensures
        from_le_bytes(bytes) < byte_range(bytes.len()),
        le_bytes(from_le_bytes(bytes), bytes.len()) == bytes,
    decreases bytes.len(),
{
    if bytes.len() > 0 {
        lemma_from_le_bytes_round_trip(bytes.drop_first());
        let rest = from_le_bytes(bytes.drop_first());
        let n = from_le_bytes(bytes);
        assert(n % 256 == bytes[0]);
        assert(n / 256 == rest);
        assert(le_bytes(n, bytes.len()) =~= bytes);
    }
}

/// Appends one byte string to another.
pub fn append(out: &mut Vec<u8>, bytes: &[u8])
    ensures
        final(out)@ == old(out)@ + bytes@,
{
    out.extend_from_slice(bytes);
    assert(out@ =~= old(out)@ + bytes@);
}

pub fn push_u32(out: &mut Vec<u8>, value: u32)
    ensures
        final(out)@ == old(out)@ + le_bytes(value as nat, 4),
{
    push_le(out, value as u128, 4);
}

pub fn push_u64(out: &mut Vec<u8>, value: u64)
    ensures
        final(out)@ == old(out)@ + le_bytes(value as nat, 8),
{
    push_le(out, value as u128, 8);
}

pub fn push_u128(out: &mut Vec<u8>, value: u128)
    ensures
        final(out)@ == old(out)@ + le_bytes(value as nat, 16),
{
    push_le(out, value, 16);
}

fn push_le(out: &mut Vec<u8>, value: u128, width: u8)
    ensures
        final(out)@ == old(out)@ + le_bytes(value as nat, width as nat),
    decreases width,
{
    if width > 0 {
        out.push((value % 256) as u8);
        let ghost middle = out@;
        push_le(out, value / 256, width - 1);
        assert(out@ =~= old(out)@ + le_bytes(value as nat, width as nat));
    } else {
        assert(out@ =~= old(out)@ + le_bytes(value as nat, 0));
    }
}

/// Reads the `u32` that stands at `start`.
pub fn read_u32(bytes: &[u8], start: usize) -> (value: u32)
    requires
        start + 4 <= bytes.len(),
    ensures
        value == from_le_bytes(bytes@.subrange(start as int, start + 4)),
{
    proof {
        reveal_with_fuel(from_le_bytes, 5);
        let s = bytes@.subrange(start as int, start + 4);
        assert(s.drop_first().drop_first().drop_first().drop_first().len() == 0);
    }
    bytes[start] as u32 + 256 * (bytes[start + 1] as u32 + 256 * (bytes[start + 2] as u32 + 256 * (
    bytes[start + 3] as u32)))
}

/// Reads the `u64` that stands at `start`.
pub fn read_u64(bytes: &[u8], start: usize) -> (value: u64)
    requires
        start + 8 <= bytes.len(),
    ensures
        value == from_le_bytes(bytes@.subrange(start as int, start + 8)),
{
    let low: u32 = read_u32(bytes, start);
    let high: u32 = read_u32(bytes, start + 4);
    proof {
        lemma_from_le_bytes_concat(
            bytes@.subrange(start as int, start + 4),
            bytes@.subrange(start + 4, start + 8),
        );
        lemma_byte_ranges();
        assert(bytes@.subrange(start as int, start + 4) + bytes@.subrange(start + 4, start + 8)
            =~= bytes@.subrange(start as int, start + 8));
    }
    low as u64 + 0x1_0000_0000u64 * high as u64
}

proof fn lemma_from_le_bytes_concat(low: Seq<u8>, high: Seq<u8>)
    ensures
        from_le_bytes(low + high) == from_le_bytes(low) + byte_range(low.len()) * from_le_bytes(
            high,
        ),
    decreases low.len(),
{
    if low.len() == 0 {
        assert(low + high =~= high);
        assert(byte_range(low.len()) == 1);
        assert(byte_range(low.len()) * from_le_bytes(high) == from_le_bytes(high))
            by (nonlinear_arith)
            requires
                byte_range(low.len()) == 1,
        ;
    } else {
        assert((low + high).drop_first() =~= low.drop_first() + high);
        lemma_from_le_bytes_concat(low.drop_first(), high);
        let scale = byte_range((low.len() - 1) as nat);
        let top = from_le_bytes(high);
        assert(256 * (scale * top) == (256 * scale) * top) by (nonlinear_arith);
    }
}

/// A copy of the bytes from `start` up to `end`.
pub fn copy_range(bytes: &[u8], start: usize, end: usize) -> (out: Vec<u8>)
    requires
        start <= end <= bytes.len(),
    ensures
        out@ == bytes@.subrange(start as int, end as int),
{
    let mut out: Vec<u8> = Vec::new();
    let mut i: usize = start;
    while i < end
        invariant
            start <= i <= end <= bytes.len(),
            out@ == bytes@.subrange(start as int, i as int),
        decreases end - i,
    {
        out.push(bytes[i]);
        i += 1;
        assert(out@ =~= bytes@.subrange(start as int, i as int));
    }
    out
}

/// Text with its length before it.
pub open spec fn framed_text(text: Seq<char>) -> Seq<u8> {
    le_bytes(encode_utf8(text).len(), 8) + encode_utf8(text)
}

/// Appends text with its length before it.
pub fn push_framed_text(out: &mut Vec<u8>, text: &str)
    ensures
        final(out)@ == old(out)@ + framed_text(text@),
{
    let bytes: &[u8] = text.as_bytes();
    push_u64(out, bytes.len() as u64);
    append(out, bytes);
    assert(out@ =~= old(out)@ + framed_text(text@));
}

} // verus!
