//! Block compression of frame payloads with zstd.

use vstd::prelude::*;

verus! {

/// What `zstd::block::compress` returns for `data` at compression `level`
/// (`None` where it reports an error).
pub uninterp spec fn zstd_block_compress(data: Seq<u8>, level: int) -> Option<Seq<u8>>;

/// What `zstd::block::decompress` returns for `data` into a buffer of
/// `capacity` bytes (`None` where it reports an error).
pub uninterp spec fn zstd_block_decompress(data: Seq<u8>, capacity: int) -> Option<Seq<u8>>;

/// `zstd::block::compress`. The result is a function of the input and the
/// level alone, named by `zstd_block_compress`; zstd is lossless, so
/// decompressing a successful result into a buffer larger than the input
/// gives the input back.
#[verifier::external_body]
pub(crate) fn compress_block(data: &[u8], level: i32) -> (r: Option<Vec<u8>>)
    ensures
        r is None <==> zstd_block_compress(data@, level as int) is None,
        r matches Some(c) ==> zstd_block_compress(data@, level as int) == Some(c@),
        r matches Some(c) ==> forall|capacity: int|
            data@.len() < capacity <= isize::MAX ==> #[trigger] zstd_block_decompress(c@, capacity)
                == Some(data@),
{
    zstd::block::compress(data, level).ok()
}

/// `zstd::block::decompress`. The result is a function of the input and the
/// capacity alone, named by `zstd_block_decompress`; a successful result never
/// holds more than `capacity` bytes. The capacity is allocated up front, so it
/// must be one that a `Vec` can hold.
#[verifier::external_body]
pub(crate) fn decompress_block(data: &[u8], capacity: usize) -> (r: Option<Vec<u8>>)
    requires
        capacity <= isize::MAX,
    ensures
        r is None <==> zstd_block_decompress(data@, capacity as int) is None,
        r matches Some(d) ==> zstd_block_decompress(data@, capacity as int) == Some(d@),
        r matches Some(d) ==> d@.len() <= capacity,
{
    zstd::block::decompress(data, capacity).ok()
}

} // verus!
