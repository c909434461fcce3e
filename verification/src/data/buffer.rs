//! The byte buffers of the `bytes` crate, as the reader and the writer
//! use them.
//!
//! Nothing in this file is proved. Each contract says what the source of
//! `bytes` shows of the function that the body calls; the proofs of the
//! reader and the writer rest on them.

use bytes::{BufMut, Bytes, BytesMut};
use vstd::prelude::*;

verus! {

/// `bytes::Bytes`: a shared run of bytes that cannot be changed.
#[verifier::external_type_specification]
#[verifier::external_body]
pub struct ExBytes(bytes::Bytes);

/// `bytes::BytesMut`: a run of bytes that grows at its end.
#[verifier::external_type_specification]
#[verifier::external_body]
pub struct ExBytesMut(bytes::BytesMut);

/// The bytes that a `Bytes` holds, first to last: the slice that it
/// dereferences to.
pub uninterp spec fn bytes_seq(bytes: Bytes) -> Seq<u8>;

/// The bytes that a `BytesMut` holds, first to last: the slice that it
/// dereferences to.
pub uninterp spec fn bytes_mut_seq(buffer: BytesMut) -> Seq<u8>;

/// `<Bytes as AsRef<[u8]>>::as_ref`: the slice of all the bytes held,
/// which is what [bytes_seq] names.
#[verifier::external_body]
pub(crate) fn bytes_as_slice(bytes: &Bytes) -> (slice: &[u8])
    ensures
        slice@ == bytes_seq(*bytes),
{
    bytes.as_ref()
}

/// `BytesMut::with_capacity`: a buffer that holds no byte yet. The
/// function makes a `Vec` of that capacity, which panics above
/// `isize::MAX`.
#[verifier::external_body]
pub(crate) fn bytes_mut_with_capacity(capacity: usize) -> (buffer: BytesMut)
    requires
        capacity <= isize::MAX,
    ensures
        bytes_mut_seq(buffer) == Seq::<u8>::empty(),
{
    BytesMut::with_capacity(capacity)
}

/// `BytesMut::len`: how many bytes the buffer holds.
#[verifier::external_body]
pub(crate) fn bytes_mut_len(buffer: &BytesMut) -> (len: usize)
    ensures
        len == bytes_mut_seq(*buffer).len(),
{
    buffer.len()
}

/// `BytesMut::capacity`: how many bytes the buffer can hold before it
/// allocates again. That is no less than it holds; how much more, the
/// allocator decides.
#[verifier::external_body]
pub(crate) fn bytes_mut_capacity(buffer: &BytesMut) -> (capacity: usize)
    ensures
        capacity >= bytes_mut_seq(*buffer).len(),
{
    buffer.capacity()
}

/// `BufMut::put_u8` on a `BytesMut`: appends one byte. The trait's
/// default does so by `put_slice`, of which see [bytes_mut_put_slice].
#[verifier::external_body]
pub(crate) fn bytes_mut_put_u8(buffer: &mut BytesMut, byte: u8)
    requires
        bytes_mut_seq(*old(buffer)).len() + 1 <= isize::MAX,
    ensures
        bytes_mut_seq(*final(buffer)) == bytes_mut_seq(*old(buffer)).push(byte),
{
    buffer.put_u8(byte)
}

/// `BufMut::put_slice` on a `BytesMut`: appends the bytes of `src` in
/// their order, by `BytesMut::extend_from_slice`.
///
/// A buffer that has only been appended to since
/// [bytes_mut_with_capacity] made it, as every buffer of this library
/// has, reserves the room as a `Vec` does: it panics where its length
/// would pass `isize::MAX`, which the precondition leaves out. That the
/// allocator may fail is not modelled.
#[verifier::external_body]
pub(crate) fn bytes_mut_put_slice(buffer: &mut BytesMut, src: &[u8])
    requires
        bytes_mut_seq(*old(buffer)).len() + src@.len() <= isize::MAX,
    ensures
        bytes_mut_seq(*final(buffer)) == bytes_mut_seq(*old(buffer)) + src@,
{
    buffer.put_slice(src)
}

/// `BytesMut::freeze`: the same bytes, no longer to be changed.
#[verifier::external_body]
pub(crate) fn bytes_mut_freeze(buffer: BytesMut) -> (bytes: Bytes)
    ensures
        bytes_seq(bytes) == bytes_mut_seq(buffer),
{
    buffer.freeze()
}

} // verus!
