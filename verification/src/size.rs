//! Sizes as people write them, such as `100M`.

use bytesize::ByteSize;
use std::str::FromStr;
use vstd::prelude::*;

verus! {

/// The number of bytes that `text` stands for, if it is a size: what
/// `ByteSize::from_str` of the `bytesize` crate makes of it.
pub uninterp spec fn byte_size_of(text: Seq<char>) -> Option<u64>;

/// Reads a size with `<bytesize::ByteSize as FromStr>::from_str` and hands
/// on the bytes it counts, or nothing where the crate finds no size in
/// `text`.
///
/// The crate reads plain digits as a number of bytes, and a number with a
/// unit after it as that many units. A unit without an `i` is a power of
/// ten and one with an `i` a power of two: `100M` and `100MB` are
/// 100 000 000 bytes, `100Mi` and `100MiB` are 104 857 600.
///
/// Nothing is proved of this function. The contract claims only that what
/// comes back depends on `text` alone, and gives it a name.
#[verifier::external_body]
pub(crate) fn parse_byte_size(text: &str) -> (bytes: Option<u64>)
    ensures
        bytes == byte_size_of(text@),
{
    match ByteSize::from_str(text) {
        Ok(size) => Some(size.as_u64()),
        Err(_) => None,
    }
}

} // verus!
