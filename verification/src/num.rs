use vstd::prelude::*;

verus! {

/// The unsigned 32-bit value that four bytes encode in little-endian order.
pub open spec fn le32(b: Seq<u8>) -> int
    recommends
        b.len() == 4,
{
    b[0] + 0x100 * b[1] + 0x1_0000 * b[2] + 0x100_0000 * b[3]
}

/// Reads a little-endian `u32` from `src` at `pos`, returning the value and
/// the position just past it, or `None` if fewer than four bytes remain.
pub fn read_u32_le(src: &[u8], pos: usize) -> (r: Option<(u32, usize)>)
    ensures
        match r {
            Some((v, next)) => {
                &&& pos + 4 <= src@.len()
                &&& next == pos + 4
                &&& v == le32(src@.subrange(pos as int, pos + 4))
            },
            None => pos + 4 > src@.len(),
        },
{
    if pos >= src.len() || src.len() - pos < 4 {
        return None;
    }
    let b0 = src[pos];
    let b1 = src[pos + 1];
    let b2 = src[pos + 2];
    let b3 = src[pos + 3];
    let v = (b0 as u32) | ((b1 as u32) << 8) | ((b2 as u32) << 16) | ((b3 as u32) << 24);
    proof {
        let s = src@.subrange(pos as int, pos + 4);
        assert(s[0] == b0 && s[1] == b1 && s[2] == b2 && s[3] == b3);
        assert((b0 as u32) | ((b1 as u32) << 8) | ((b2 as u32) << 16) | ((b3 as u32) << 24)
            == b0 + 0x100 * b1 + 0x1_0000 * b2 + 0x100_0000 * b3) by (bit_vector);
    }
    Some((v, pos + 4))
}

/// The ASCII decimal rendering of a non-negative number.
pub open spec fn spec_dec(n: int) -> Seq<u8>
    recommends
        n >= 0,
    decreases n,
{
    if n < 10 {
        seq![(0x30 + n) as u8]
    } else {
        spec_dec(n / 10).push((0x30 + n % 10) as u8)
    }
}

/// Renders a value in plain decimal.
pub fn u32_to_dec(d: u32) -> (r: Vec<u8>)
    ensures
        r@ == spec_dec(d as int),
    decreases d,
{
    if d < 10 {
        let mut v: Vec<u8> = Vec::new();
        v.push(0x30 + d as u8);
        proof {
            assert(v@ =~= spec_dec(d as int));
        }
        v
    } else {
        let mut v = u32_to_dec(d / 10);
        v.push(0x30 + (d % 10) as u8);
        v
    }
}

/// Renders a value in plain decimal.
pub fn u64_to_dec(d: u64) -> (r: Vec<u8>)
    ensures
        r@ == spec_dec(d as int),
    decreases d,
{
    if d < 10 {
        let mut v: Vec<u8> = Vec::new();
        v.push(0x30 + d as u8);
        proof {
            assert(v@ =~= spec_dec(d as int));
        }
        v
    } else {
        let mut v = u64_to_dec(d / 10);
        v.push(0x30 + (d % 10) as u8);
        v
    }
}

} // verus!
