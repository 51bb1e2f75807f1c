//! Byte-level encoding helpers: little-endian field access inside a page
//! buffer and big-endian appends used by the redo wire protocol.

use vstd::prelude::*;

verus! {

broadcast use vstd::std_specs::vec::axiom_spec_len;

/// The four little-endian bytes of `v`, least significant first.
pub open spec fn le32_bytes(v: u32) -> Seq<u8> {
    seq![
        (v & 0xff) as u8,
        ((v >> 8u32) & 0xff) as u8,
        ((v >> 16u32) & 0xff) as u8,
        ((v >> 24u32) & 0xff) as u8,
    ]
}

/// The four big-endian bytes of `v`, most significant first.
pub open spec fn be32_bytes(v: u32) -> Seq<u8> {
    seq![
        ((v >> 24u32) & 0xff) as u8,
        ((v >> 16u32) & 0xff) as u8,
        ((v >> 8u32) & 0xff) as u8,
        (v & 0xff) as u8,
    ]
}

/// The eight big-endian bytes of `v`, most significant first.
pub open spec fn be64_bytes(v: u64) -> Seq<u8> {
    seq![
        ((v >> 56u64) & 0xff) as u8,
        ((v >> 48u64) & 0xff) as u8,
        ((v >> 40u64) & 0xff) as u8,
        ((v >> 32u64) & 0xff) as u8,
        ((v >> 24u64) & 0xff) as u8,
        ((v >> 16u64) & 0xff) as u8,
        ((v >> 8u64) & 0xff) as u8,
        (v & 0xff) as u8,
    ]
}

/// The `u32` stored little-endian at `off` in `s`.
pub open spec fn le32_of(s: Seq<u8>, off: int) -> u32 {
    (s[off] as u32) | ((s[off + 1] as u32) << 8u32) | ((s[off + 2] as u32) << 16u32) | ((s[off
        + 3] as u32) << 24u32)
}

/// `s` with the `bytes.len()` bytes starting at `off` replaced by `bytes`.
pub open spec fn overwrite(s: Seq<u8>, off: int, bytes: Seq<u8>) -> Seq<u8> {
    s.take(off) + bytes + s.skip(off + bytes.len())
}

/// Read the little-endian `u32` at `off`.
pub fn read_u32_le(buf: &Vec<u8>, off: usize) -> (r: u32)
    requires
        off + 4 <= buf@.len(),
    ensures
        r == le32_of(buf@, off as int),
{
    let n = buf.len();
    assert(off + 4 <= n);
    let b0 = buf[off];
    let b1 = buf[off + 1];
    let b2 = buf[off + 2];
    let b3 = buf[off + 3];
    (b0 as u32) | ((b1 as u32) << 8u32) | ((b2 as u32) << 16u32) | ((b3 as u32) << 24u32)
}

/// Overwrite the four bytes at `off` with `v`, little-endian.
pub fn write_u32_le(buf: &mut Vec<u8>, off: usize, v: u32)
    requires
        off + 4 <= old(buf)@.len(),
    ensures
        final(buf)@ == overwrite(old(buf)@, off as int, le32_bytes(v)),
{
    let n = buf.len();
    assert(off + 4 <= n);
    buf[off] = (v & 0xff) as u8;
    buf[off + 1] = ((v >> 8u32) & 0xff) as u8;
    buf[off + 2] = ((v >> 16u32) & 0xff) as u8;
    buf[off + 3] = ((v >> 24u32) & 0xff) as u8;
    proof {
        assert(buf@ =~= overwrite(old(buf)@, off as int, le32_bytes(v)));
    }
}

/// Append one byte.
pub fn put_u8(buf: &mut Vec<u8>, v: u8)
    ensures
        final(buf)@ == old(buf)@ + seq![v],
{
    buf.push(v);
    proof {
        assert(buf@ =~= old(buf)@ + seq![v]);
    }
}

/// Append `v` as four big-endian bytes.
pub fn put_u32_be(buf: &mut Vec<u8>, v: u32)
    ensures
        final(buf)@ == old(buf)@ + be32_bytes(v),
{
    buf.push(((v >> 24u32) & 0xff) as u8);
    buf.push(((v >> 16u32) & 0xff) as u8);
    buf.push(((v >> 8u32) & 0xff) as u8);
    buf.push((v & 0xff) as u8);
    proof {
        assert(buf@ =~= old(buf)@ + be32_bytes(v));
    }
}

/// Append `v` as eight big-endian bytes.
pub fn put_u64_be(buf: &mut Vec<u8>, v: u64)
    ensures
        final(buf)@ == old(buf)@ + be64_bytes(v),
{
    buf.push(((v >> 56u64) & 0xff) as u8);
    buf.push(((v >> 48u64) & 0xff) as u8);
    buf.push(((v >> 40u64) & 0xff) as u8);
    buf.push(((v >> 32u64) & 0xff) as u8);
    buf.push(((v >> 24u64) & 0xff) as u8);
    buf.push(((v >> 16u64) & 0xff) as u8);
    buf.push(((v >> 8u64) & 0xff) as u8);
    buf.push((v & 0xff) as u8);
    proof {
        assert(buf@ =~= old(buf)@ + be64_bytes(v));
    }
}

/// Append every byte of `bytes`.
pub fn put_bytes(buf: &mut Vec<u8>, bytes: &Vec<u8>)
    ensures
        final(buf)@ == old(buf)@ + bytes@,
{
    let mut i: usize = 0;
    while i < bytes.len()
        invariant
            i <= bytes@.len(),
            buf@ == old(buf)@ + bytes@.take(i as int),
        decreases bytes@.len() - i,
    {
        buf.push(bytes[i]);
        i = i + 1;
        proof {
            assert(buf@ =~= old(buf)@ + bytes@.take(i as int));
        }
    }
    proof {
        assert(buf@ =~= old(buf)@ + bytes@);
    }
}

} // verus!
