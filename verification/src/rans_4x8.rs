//! Header of a rANS 4x8 compressed block: the coder order and the
//! compressed and uncompressed sizes.

use vstd::prelude::*;

use crate::num::le32;
use crate::num::read_u32_le;

verus! {

/// The context order of the range coder: order zero models each byte alone,
/// order one conditions each byte on its predecessor.
#[derive(Clone, Copy, Debug, PartialEq, Eq, Structural)]
pub enum Order {
    Zero,
    One,
}

/// A failure while reading a block header.
#[derive(Clone, Copy, Debug, PartialEq, Eq, Structural)]
pub enum HeaderError {
    /// The source ended inside a field.
    UnexpectedEof,
    /// The order byte holds neither zero nor one.
    InvalidOrder,
}

/// Reads the coder order byte at `pos`: zero or one, anything else being
/// invalid.
pub fn read_order(src: &[u8], pos: usize) -> (r: Result<(Order, usize), HeaderError>)
    ensures
        match r {
            Ok((order, next)) => {
                &&& pos < src@.len()
                &&& next == pos + 1
                &&& (src@[pos as int] == 0 || src@[pos as int] == 1)
                &&& order == (if src@[pos as int] == 0 {
                    Order::Zero
                } else {
                    Order::One
                })
            },
            Err(HeaderError::UnexpectedEof) => pos >= src@.len(),
            Err(HeaderError::InvalidOrder) => pos < src@.len() && src@[pos as int] != 0 && src@[
                pos as int
            ] != 1,
        },
{
    if pos >= src.len() {
        return Err(HeaderError::UnexpectedEof);
    }
    match src[pos] {
        0 => Ok((Order::Zero, pos + 1)),
        1 => Ok((Order::One, pos + 1)),
        _ => Err(HeaderError::InvalidOrder),
    }
}

/// Reads a little-endian 32-bit size at `pos`.
pub fn read_size(src: &[u8], pos: usize) -> (r: Result<(usize, usize), HeaderError>)
    ensures
        match r {
            Ok((n, next)) => {
                &&& pos + 4 <= src@.len()
                &&& next == pos + 4
                &&& n == le32(src@.subrange(pos as int, pos + 4))
            },
            Err(e) => e == HeaderError::UnexpectedEof && pos + 4 > src@.len(),
        },
{
    match read_u32_le(src, pos) {
        Some((v, next)) => Ok((v as usize, next)),
        None => Err(HeaderError::UnexpectedEof),
    }
}

/// Reads a block header at `pos`: the coder order, the compressed size and
/// the uncompressed size, returning them with the position just past the
/// header.
pub fn read_header(src: &[u8], pos: usize) -> (r: Result<
    ((Order, usize, usize), usize),
    HeaderError,
>)
    ensures
        match r {
            Ok(((order, csize, usize_), next)) => {
                &&& pos + 9 <= src@.len()
                &&& next == pos + 9
                &&& (src@[pos as int] == 0 || src@[pos as int] == 1)
                &&& order == (if src@[pos as int] == 0 {
                    Order::Zero
                } else {
                    Order::One
                })
                &&& csize == le32(src@.subrange(pos + 1, pos + 5))
                &&& usize_ == le32(src@.subrange(pos + 5, pos + 9))
            },
            Err(_) => true,
        },
{
    let (order, p1) = match read_order(src, pos) {
        Ok(x) => x,
        Err(e) => {
            return Err(e);
        },
    };
    let (compressed_size, p2) = match read_size(src, p1) {
        Ok(x) => x,
        Err(e) => {
            return Err(e);
        },
    };
    let (uncompressed_size, p3) = match read_size(src, p2) {
        Ok(x) => x,
        Err(e) => {
            return Err(e);
        },
    };
    Ok(((order, compressed_size, uncompressed_size), p3))
}

} // verus!
