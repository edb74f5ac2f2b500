//! Big-endian integers on the wire.
//!
//! Every multi-byte header field is an unsigned integer in network byte
//! order. `be_value` reads such a field and `be_bytes` writes it; the two are
//! inverse to each other.

use vstd::arithmetic::div_mod::lemma_div_denominator;
use vstd::prelude::*;

verus! {

/// `256^width`: the number of values that `width` bytes can spell.
pub open spec fn byte_capacity(width: nat) -> nat
    decreases width,
{
    if width == 0 {
        1
    } else {
        256 * byte_capacity((width - 1) as nat)
    }
}

/// The unsigned integer that `bytes` spell, most significant byte first.
pub open spec fn be_value(bytes: Seq<u8>) -> nat
    decreases bytes.len(),
{
    if bytes.len() == 0 {
        0
    } else {
        be_value(bytes.drop_last()) * 256 + bytes.last() as nat
    }
}

/// The `width` bytes that spell `value`, most significant byte first. Bits of
/// `value` above `256^width` are dropped.
pub open spec fn be_bytes(value: nat, width: nat) -> Seq<u8>
    decreases width,
{
    if width == 0 {
        Seq::empty()
    } else {
        be_bytes(value / 256, (width - 1) as nat).push((value % 256) as u8)
    }
}

/// What a reply holds, if there is one.
pub open spec fn reply_bytes(reply: Option<Vec<u8>>) -> Option<Seq<u8>> {
    match reply {
        Some(bytes) => Some(bytes@),
        None => None,
    }
}

/// The capacities of the field widths in use.
pub proof fn lemma_byte_capacity_values()
    ensures
        byte_capacity(0) == 1,
        byte_capacity(1) == 0x100,
        byte_capacity(2) == 0x1_0000,
        byte_capacity(4) == 0x1_0000_0000,
        byte_capacity(15) == 0x100_0000_0000_0000_0000_0000_0000_0000,
        byte_capacity(16) == 0x1_0000_0000_0000_0000_0000_0000_0000_0000,
{
    reveal_with_fuel(byte_capacity, 17);
}

/// More bytes spell more values.
pub proof fn lemma_byte_capacity_monotonic(a: nat, b: nat)
    requires
        a <= b,
    ensures
        1 <= byte_capacity(a) <= byte_capacity(b),
    decreases b,
{
    if b == 0 {
    } else if a == b {
        lemma_byte_capacity_monotonic(0, (b - 1) as nat);
    } else {
        lemma_byte_capacity_monotonic(a, (b - 1) as nat);
    }
}

/// A field of `n` bytes spells a value below `256^n`.
pub proof fn lemma_be_value_bound(bytes: Seq<u8>)
    ensures
        be_value(bytes) < byte_capacity(bytes.len()),
    decreases bytes.len(),
{
    if bytes.len() > 0 {
        lemma_be_value_bound(bytes.drop_last());
    }
}

/// A value is written in as many bytes as asked for.
pub proof fn lemma_be_bytes_len(value: nat, width: nat)
    ensures
        be_bytes(value, width).len() == width,
    decreases width,
{
    if width > 0 {
        lemma_be_bytes_len(value / 256, (width - 1) as nat);
    }
}

/// Reading what was written gives the value back.
pub proof fn lemma_be_value_of_be_bytes(value: nat, width: nat)
    requires
        value < byte_capacity(width),
    ensures
        be_value(be_bytes(value, width)) == value,
    decreases width,
{
    if width > 0 {
        let rest = be_bytes(value / 256, (width - 1) as nat);
        lemma_be_value_of_be_bytes(value / 256, (width - 1) as nat);
        assert(be_bytes(value, width).drop_last() =~= rest);
    }
}

/// Writing what was read gives the bytes back.
pub proof fn lemma_be_bytes_of_be_value(bytes: Seq<u8>)
    ensures
        be_bytes(be_value(bytes), bytes.len()) == bytes,
    decreases bytes.len(),
{
    if bytes.len() > 0 {
        lemma_be_bytes_of_be_value(bytes.drop_last());
        assert(be_bytes(be_value(bytes), bytes.len()) =~= bytes);
    } else {
        assert(be_bytes(be_value(bytes), bytes.len()) =~= bytes);
    }
}

/// Reads the `width` bytes at `at` as one big-endian integer.
pub(crate) fn read_be(bytes: &[u8], at: usize, width: usize) -> (value: u128)
    requires
        width <= 16,
        at + width <= bytes.len(),
    ensures
        value == be_value(bytes@.subrange(at as int, at + width)),
        value < byte_capacity(width as nat),
{
    let mut value: u128 = 0;
    let mut i: usize = 0;
    while i < width
        invariant
            i <= width <= 16,
            at + width <= bytes.len(),
            value == be_value(bytes@.subrange(at as int, at + i)),
            value < byte_capacity(i as nat),
        decreases width - i,
    {
        let ghost field = bytes@.subrange(at as int, at + i + 1);
        proof {
            assert(field.drop_last() =~= bytes@.subrange(at as int, at + i));
            lemma_byte_capacity_values();
            lemma_byte_capacity_monotonic(i as nat, 15);
        }
        value = value * 256 + bytes[at + i] as u128;
        i = i + 1;
    }
    value
}

/// Reads the two bytes at `at` as a big-endian integer.
pub(crate) fn read_be_u16(bytes: &[u8], at: usize) -> (value: u16)
    requires
        at + 2 <= bytes.len(),
    ensures
        value == be_value(bytes@.subrange(at as int, at + 2)),
{
    proof {
        lemma_byte_capacity_values();
    }
    read_be(bytes, at, 2) as u16
}

/// Reads the four bytes at `at` as a big-endian integer.
pub(crate) fn read_be_u32(bytes: &[u8], at: usize) -> (value: u32)
    requires
        at + 4 <= bytes.len(),
    ensures
        value == be_value(bytes@.subrange(at as int, at + 4)),
{
    proof {
        lemma_byte_capacity_values();
    }
    read_be(bytes, at, 4) as u32
}

/// Appends the `width` low bytes of `value`, most significant first.
pub(crate) fn push_be(out: &mut Vec<u8>, value: u128, width: usize)
    requires
        1 <= width <= 16,
    ensures
        final(out)@ == old(out)@ + be_bytes(value as nat, width as nat),
{
    let mut divisor: u128 = 1;
    let mut k: usize = 1;
    while k < width
        invariant
            1 <= k <= width <= 16,
            divisor == byte_capacity((k - 1) as nat),
            out@ == old(out)@,
        decreases width - k,
    {
        proof {
            lemma_byte_capacity_values();
            lemma_byte_capacity_monotonic((k - 1) as nat, 14);
        }
        divisor = divisor * 256;
        k = k + 1;
    }
    let mut i: usize = 0;
    proof {
        let top = value as nat / byte_capacity(width as nat);
        lemma_be_bytes_len(top, 0);
        assert(out@ =~= old(out)@ + be_bytes(top, 0));
    }
    while i < width
        invariant
            i <= width <= 16,
            i < width ==> divisor == byte_capacity((width - 1 - i) as nat),
            out@ == old(out)@ + be_bytes(
                value as nat / byte_capacity((width - i) as nat),
                i as nat,
            ),
        decreases width - i,
    {
        let ghost above = value as nat / byte_capacity((width - 1 - i) as nat);
        proof {
            lemma_byte_capacity_monotonic(0, (width - 1 - i) as nat);
            lemma_div_denominator(value as int, byte_capacity((width - 1 - i) as nat) as int, 256);
            assert(byte_capacity((width - 1 - i) as nat) * 256 == byte_capacity(
                (width - i) as nat,
            ));
            assert(above / 256 == value as nat / byte_capacity((width - i) as nat));
        }
        let byte: u8 = ((value / divisor) % 256) as u8;
        out.push(byte);
        proof {
            assert(out@ =~= old(out)@ + be_bytes(above, (i + 1) as nat));
        }
        divisor = divisor / 256;
        i = i + 1;
        proof {
            if i < width {
                let e = (width - 1 - i) as nat;
                assert(byte_capacity((e + 1) as nat) == 256 * byte_capacity(e));
            }
        }
    }
    proof {
        assert(byte_capacity(0) == 1);
        assert(value as nat / 1 == value as nat);
    }
}

/// Overwrites the two bytes at `at` with `value`, most significant first.
pub(crate) fn patch_be_u16(out: &mut Vec<u8>, at: usize, value: u16)
    requires
        at + 2 <= old(out).len(),
    ensures
        final(out)@ == old(out)@.update(at as int, (value / 256) as u8).update(
            at + 1,
            (value % 256) as u8,
        ),
{
    out[at] = (value / 256) as u8;
    out[at + 1] = (value % 256) as u8;
}

/// Appends `bytes` to `out`.
pub(crate) fn push_bytes(out: &mut Vec<u8>, bytes: &[u8])
    ensures
        final(out)@ == old(out)@ + bytes@,
{
    let mut i: usize = 0;
    while i < bytes.len()
        invariant
            i <= bytes@.len(),
            out@ == old(out)@ + bytes@.subrange(0, i as int),
        decreases bytes@.len() - i,
    {
        out.push(bytes[i]);
        i = i + 1;
        proof {
            assert(out@ =~= old(out)@ + bytes@.subrange(0, i as int));
        }
    }
    proof {
        assert(bytes@.subrange(0, i as int) =~= bytes@);
    }
}

} // verus!
