//! Fixed-capacity byte buffers.
//!
//! Fields that arrive in parts are put together in `heapless::Vec<u8, N>`
//! buffers, which never allocate. Verus does not see inside such a buffer. This
//! module gives the contents of each of the four buffers in use a name, and
//! states, without proof, what `new`, `extend_from_slice` and `as_slice` do to
//! those contents. The decoders reach the buffers through these three
//! functions only; whether a buffer is full or empty they tell by its length.

use vstd::prelude::*;

verus! {

/// Bytes of a chunk header: four of length, four of type.
pub const CHUNK_HEADER_SIZE: usize = 8;

/// Bytes of the check value that closes every chunk.
pub const CHECK_VALUE_SIZE: usize = 4;

/// Bytes of an image header payload.
pub const IMAGE_HEADER_SIZE: usize = 13;

/// Bytes of a full palette: 256 entries of three bytes.
pub const PALETTE_SIZE: usize = 768;

/// Makes `heapless::Vec` known to Verus as a type whose inside it does not
/// see.
#[verifier::external_type_specification]
#[verifier::external_body]
#[verifier::reject_recursive_types(T)]
pub struct ExHeaplessVec<T, const N: usize>(heapless::Vec<T, N>);

/// The bytes held by a chunk-header buffer, oldest first.
pub uninterp spec fn chunk_header_bytes(buf: heapless::Vec<u8, CHUNK_HEADER_SIZE>) -> Seq<u8>;

/// The bytes held by a check-value buffer, oldest first.
pub uninterp spec fn check_value_bytes(buf: heapless::Vec<u8, CHECK_VALUE_SIZE>) -> Seq<u8>;

/// The bytes held by an image-header buffer, oldest first.
pub uninterp spec fn image_header_bytes(buf: heapless::Vec<u8, IMAGE_HEADER_SIZE>) -> Seq<u8>;

/// The bytes held by a palette buffer, oldest first.
pub uninterp spec fn palette_bytes(buf: heapless::Vec<u8, PALETTE_SIZE>) -> Seq<u8>;

/// A buffer whose contents can be spoken of in contracts.
pub trait Scratch {
    /// The bytes held, oldest first.
    spec fn held(&self) -> Seq<u8>;
}

impl Scratch for heapless::Vec<u8, CHUNK_HEADER_SIZE> {
    open spec fn held(&self) -> Seq<u8> {
        chunk_header_bytes(*self)
    }
}

impl Scratch for heapless::Vec<u8, CHECK_VALUE_SIZE> {
    open spec fn held(&self) -> Seq<u8> {
        check_value_bytes(*self)
    }
}

impl Scratch for heapless::Vec<u8, IMAGE_HEADER_SIZE> {
    open spec fn held(&self) -> Seq<u8> {
        image_header_bytes(*self)
    }
}

impl Scratch for heapless::Vec<u8, PALETTE_SIZE> {
    open spec fn held(&self) -> Seq<u8> {
        palette_bytes(*self)
    }
}

/// `heapless::Vec::new` at capacity 8: the buffer starts out holding nothing.
#[verifier::external_body]
pub(crate) fn new_chunk_header_buf() -> (buf: heapless::Vec<u8, CHUNK_HEADER_SIZE>)
    ensures
        chunk_header_bytes(buf) == Seq::<u8>::empty(),
{
    heapless::Vec::new()
}

/// `heapless::Vec::new` at capacity 4: the buffer starts out holding nothing.
#[verifier::external_body]
pub(crate) fn new_check_value_buf() -> (buf: heapless::Vec<u8, CHECK_VALUE_SIZE>)
    ensures
        check_value_bytes(buf) == Seq::<u8>::empty(),
{
    heapless::Vec::new()
}

/// `heapless::Vec::new` at capacity 13: the buffer starts out holding nothing.
#[verifier::external_body]
pub(crate) fn new_image_header_buf() -> (buf: heapless::Vec<u8, IMAGE_HEADER_SIZE>)
    ensures
        image_header_bytes(buf) == Seq::<u8>::empty(),
{
    heapless::Vec::new()
}

/// `heapless::Vec::new` at capacity 768: the buffer starts out holding nothing.
#[verifier::external_body]
pub(crate) fn new_palette_buf() -> (buf: heapless::Vec<u8, PALETTE_SIZE>)
    ensures
        palette_bytes(buf) == Seq::<u8>::empty(),
{
    heapless::Vec::new()
}

/// `heapless::Vec::extend_from_slice`: where the bytes fit within the capacity
/// `N` they are appended in order and the call succeeds; where they do not, the
/// call fails and the buffer is left as it was.
#[verifier::external_body]
pub(crate) fn extend_from_slice<const N: usize>(
    buf: &mut heapless::Vec<u8, N>,
    bytes: &[u8],
) -> (r: Result<(), ()>) where heapless::Vec<u8, N>: Scratch
    ensures
        old(buf).held().len() + bytes@.len() <= N ==> r is Ok && final(buf).held() == old(
            buf,
        ).held() + bytes@,
        old(buf).held().len() + bytes@.len() > N ==> r is Err && final(buf).held() == old(
            buf,
        ).held(),
{
    buf.extend_from_slice(bytes)
}

/// `heapless::Vec::as_slice`: a view of exactly the bytes held.
#[verifier::external_body]
pub(crate) fn as_slice<const N: usize>(buf: &heapless::Vec<u8, N>) -> (s: &[u8]) where
    heapless::Vec<u8, N>: Scratch,
    ensures
        s@ == buf.held(),
{
    buf.as_slice()
}

} // verus!
