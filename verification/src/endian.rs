//! Big-endian integer fields of the wire format.

use vstd::prelude::*;

verus! {

/// The two big-endian bytes of a 16-bit field.
pub open spec fn be16_bytes(n: u16) -> Seq<u8> {
    seq![(n / 256) as u8, (n % 256) as u8]
}

/// The 16-bit value read from two big-endian bytes.
pub open spec fn be16_val(hi: u8, lo: u8) -> u16 {
    (hi as int * 256 + lo as int) as u16
}

/// The four big-endian bytes of a 32-bit field.
pub open spec fn be32_bytes(n: u32) -> Seq<u8> {
    seq![
        (n / 0x1000000) as u8,
        ((n / 0x10000) % 256) as u8,
        ((n / 256) % 256) as u8,
        (n % 256) as u8,
    ]
}

/// The 32-bit value read from four big-endian bytes.
pub open spec fn be32_val(b0: u8, b1: u8, b2: u8, b3: u8) -> u32 {
    (b0 as int * 0x1000000 + b1 as int * 0x10000 + b2 as int * 256 + b3 as int) as u32
}

/// The eight big-endian bytes of a 64-bit field.
pub open spec fn be64_bytes(n: u64) -> Seq<u8> {
    be32_bytes((n / 0x100000000) as u32) + be32_bytes((n % 0x100000000) as u32)
}

/// The 64-bit value read from eight big-endian bytes.
pub open spec fn be64_val(hi: u32, lo: u32) -> u64 {
    (hi as int * 0x100000000 + lo as int) as u64
}

/// Writing a 16-bit field and reading it back yields the same value.
pub proof fn lemma_be16_roundtrip(n: u16)
    ensures
        be16_val((n / 256) as u8, (n % 256) as u8) == n,
{
    assert(n as int == (n as int / 256) * 256 + n as int % 256) by (nonlinear_arith);
}

pub fn push_be16(out: &mut Vec<u8>, n: u16)
    ensures
        final(out)@ == old(out)@ + be16_bytes(n),
{
    out.push((n / 256) as u8);
    out.push((n % 256) as u8);
    proof {
        assert(out@ =~= old(out)@ + be16_bytes(n));
    }
}

pub fn push_be32(out: &mut Vec<u8>, n: u32)
    ensures
        final(out)@ == old(out)@ + be32_bytes(n),
{
    out.push((n / 0x1000000) as u8);
    out.push(((n / 0x10000) % 256) as u8);
    out.push(((n / 256) % 256) as u8);
    out.push((n % 256) as u8);
    proof {
        assert(out@ =~= old(out)@ + be32_bytes(n));
    }
}

pub fn push_be64(out: &mut Vec<u8>, n: u64)
    ensures
        final(out)@ == old(out)@ + be64_bytes(n),
{
    push_be32(out, (n / 0x100000000) as u32);
    push_be32(out, (n % 0x100000000) as u32);
    proof {
        assert(out@ =~= old(out)@ + be64_bytes(n));
    }
}

/// Reads the 16-bit big-endian field at `pos`.
pub fn read_be16(b: &Vec<u8>, pos: usize) -> (r: u16)
    requires
        pos + 2 <= b@.len(),
    ensures
        r == be16_val(b@[pos as int], b@[pos as int + 1]),
{
    let n = b.len();
    let hi = b[pos];
    let lo = b[pos + 1];
    hi as u16 * 256 + lo as u16
}

/// Reads the 32-bit big-endian field at `pos`.
pub fn read_be32(b: &Vec<u8>, pos: usize) -> (r: u32)
    requires
        pos + 4 <= b@.len(),
    ensures
        r == be32_val(b@[pos as int], b@[pos as int + 1], b@[pos as int + 2], b@[pos as int + 3]),
{
    let n = b.len();
    let b0 = b[pos] as u32;
    let b1 = b[pos + 1] as u32;
    let b2 = b[pos + 2] as u32;
    let b3 = b[pos + 3] as u32;
    b0 * 0x1000000 + b1 * 0x10000 + b2 * 256 + b3
}

/// Reads the 64-bit big-endian field at `pos`.
pub fn read_be64(b: &Vec<u8>, pos: usize) -> (r: u64)
    requires
        pos + 8 <= b@.len(),
    ensures
        r == be64_val(
            be32_val(b@[pos as int], b@[pos as int + 1], b@[pos as int + 2], b@[pos as int + 3]),
            be32_val(
                b@[pos as int + 4],
                b@[pos as int + 5],
                b@[pos as int + 6],
                b@[pos as int + 7],
            ),
        ),
{
    let n = b.len();
    let hi = read_be32(b, pos);
    let lo = read_be32(b, pos + 4);
    hi as u64 * 0x100000000 + lo as u64
}

} // verus!
