//! The packet cipher and the hash by which a client knows its server.

use vstd::prelude::*;

mod server_verification_hash;
pub use server_verification_hash::server_verification_hash;
pub use server_verification_hash::{hash_modulus, hashable, remainder, verification_hash};
mod swap_multiples;
pub use swap_multiples::swap_multiples;
pub use swap_multiples::{
    is_multiple, lemma_swap_multiples_twice, run_end, run_start, swapped_multiples,
};
mod encrypt_packet;
pub use encrypt_packet::encrypt_packet;
pub use encrypt_packet::{encrypted_packet, interleaved};
mod decrypt_packet;
pub use decrypt_packet::decrypt_packet;
pub use decrypt_packet::{
    decrypted_packet, deinterleaved, lemma_cipher_text_marked, lemma_decrypt_inverts_encrypt,
    lemma_encrypt_inverts_decrypt,
};

verus! {

/// Whether the cipher applies to a packet of these bytes: it passes over
/// a packet of one or two bytes, and one that begins with two bytes of
/// 255.
pub open spec fn encryptable(bytes: Seq<u8>) -> bool {
    bytes.len() > 2 && !(bytes[0] == 0xff && bytes[1] == 0xff)
}

/// Tells whether the cipher applies to the packet in `buf`.
pub fn valid_for_encryption(buf: &[u8]) -> (valid: bool)
    ensures
        valid == encryptable(buf@),
{
    buf.len() > 2 && !(buf[0] == 0xff && buf[1] == 0xff)
}

/// `byte` with its highest bit flipped, unless its other bits are all
/// zero: 0 and 128 stay as they are.
pub open spec fn flipped(byte: u8) -> u8 {
    if byte & 0x7f != 0 {
        byte ^ 0x80
    } else {
        byte
    }
}

/// Flipping a byte twice gives the byte back.
pub proof fn lemma_flipped_twice(byte: u8)
    ensures
        flipped(flipped(byte)) == byte,
{
    assert((byte ^ 0x80) & 0x7f == byte & 0x7f) by (bit_vector);
    assert((byte ^ 0x80) ^ 0x80 == byte) by (bit_vector);
}

/// Flips the highest bit of `byte` where [flipped] does.
pub(crate) fn flip(byte: u8) -> (result: u8)
    ensures
        result == flipped(byte),
{
    if byte & 0x7f != 0 {
        byte ^ 0x80
    } else {
        byte
    }
}

/// Copies `src` over `dst`, which has the same length.
pub(crate) fn copy_over(dst: &mut [u8], src: &[u8])
    requires
        old(dst)@.len() == src@.len(),
    ensures
        final(dst)@ == src@,
{
    let length: usize = src.len();
    let mut i: usize = 0;
    while i < length
        invariant
            0 <= i <= length,
            length == src@.len(),
            dst@.len() == length,
            forall|j: int| 0 <= j < i ==> dst@[j] == src@[j],
        decreases length - i,
    {
        dst[i] = src[i];
        i += 1;
    }
}

} // verus!
