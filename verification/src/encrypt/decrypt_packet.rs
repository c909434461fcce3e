//! Decryption of a packet.

use super::encrypt_packet::{encrypted_packet, interleaved};
use super::swap_multiples::{lemma_swap_multiples_twice, swap_multiples, swapped_multiples};
use super::{copy_over, encryptable, flip, flipped, lemma_flipped_twice, valid_for_encryption};
use vstd::prelude::*;

verus! {

/// `bytes` flipped and unwoven: the bytes at the even places, in their
/// order, come to the front, those at the odd places, last first, to the
/// back, and each is flipped on its way.
///
/// ```text
/// abcde -> acedb
///   or
/// abcdef -> acefdb
/// ```
pub open spec fn deinterleaved(bytes: Seq<u8>) -> Seq<u8> {
    Seq::new(
        bytes.len(),
        |j: int|
            if j < bytes.len() - bytes.len() / 2 {
                flipped(bytes[2 * j])
            } else {
                flipped(bytes[2 * (bytes.len() - 1 - j) + 1])
            },
    )
}

/// The packet that `bytes` is the cipher text of: `bytes` flipped and
/// unwoven, and in the result the runs of multiples of `multiple`
/// reversed. A packet that the cipher does not apply to is its own plain
/// text.
pub open spec fn decrypted_packet(bytes: Seq<u8>, multiple: u8) -> Seq<u8> {
    if encryptable(bytes) {
        swapped_multiples(deinterleaved(bytes), multiple)
    } else {
        bytes
    }
}

/// Unweaving undoes weaving.
proof fn lemma_deinterleave_inverts_interleave(bytes: Seq<u8>)
    ensures
        deinterleaved(interleaved(bytes)) == bytes,
{
    let woven = interleaved(bytes);
    assert forall|j: int| 0 <= j < bytes.len() implies deinterleaved(woven)[j] == bytes[j] by {
        lemma_flipped_twice(bytes[j]);
    }
}

/// Weaving undoes unweaving.
proof fn lemma_interleave_inverts_deinterleave(bytes: Seq<u8>)
    ensures
        interleaved(deinterleaved(bytes)) == bytes,
{
    let unwoven = deinterleaved(bytes);
    assert forall|k: int| 0 <= k < bytes.len() implies interleaved(unwoven)[k] == bytes[k] by {
        lemma_flipped_twice(bytes[k]);
    }
}

/// A cipher text begins with two bytes of 255, and so looks like a
/// packet that the cipher passes over, just where the first and the
/// last byte of the packet, after its runs are reversed, are both 127.
pub proof fn lemma_cipher_text_marked(bytes: Seq<u8>, multiple: u8)
    requires
        encryptable(bytes),
    ensures
        !encryptable(encrypted_packet(bytes, multiple)) <==> swapped_multiples(bytes, multiple)[0]
            == 127 && swapped_multiples(bytes, multiple)[bytes.len() - 1] == 127,
{
    let swapped = swapped_multiples(bytes, multiple);
    let first: u8 = swapped[0];
    let last: u8 = swapped[bytes.len() - 1];
    assert(flipped(first) == 0xff <==> first == 127) by (bit_vector);
    assert(flipped(last) == 0xff <==> last == 127) by (bit_vector);
}

/// Decryption undoes encryption, with the same multiple, wherever it
/// takes the cipher text for one.
///
/// A cipher text that looks like a packet that the cipher passes over
/// is left as it is by decryption; [lemma_cipher_text_marked] says of
/// which packets it is one.
pub proof fn lemma_decrypt_inverts_encrypt(bytes: Seq<u8>, multiple: u8)
    requires
        encryptable(bytes) ==> multiple != 0,
        encryptable(bytes) ==> encryptable(encrypted_packet(bytes, multiple)),
    ensures
        decrypted_packet(encrypted_packet(bytes, multiple), multiple) == bytes,
{
    if encryptable(bytes) {
        lemma_deinterleave_inverts_interleave(swapped_multiples(bytes, multiple));
        lemma_swap_multiples_twice(bytes, multiple);
    }
}

/// Encryption undoes decryption, with the same multiple, wherever it
/// takes the plain text for a packet that the cipher applies to.
pub proof fn lemma_encrypt_inverts_decrypt(bytes: Seq<u8>, multiple: u8)
    requires
        encryptable(bytes) ==> multiple != 0,
        encryptable(bytes) ==> encryptable(decrypted_packet(bytes, multiple)),
    ensures
        encrypted_packet(decrypted_packet(bytes, multiple), multiple) == bytes,
{
    if encryptable(bytes) {
        lemma_swap_multiples_twice(deinterleaved(bytes), multiple);
        lemma_interleave_inverts_deinterleave(bytes);
    }
}

/// Decrypts a packet.
///
/// Packets are decrypted in three steps:
/// 1. Flipping
/// 2. Interleaving
/// 3. "dickwinding"
///
/// ## Flipping
/// Each byte of the packet has their most significant bits flipped
///
/// ## Interleaving
/// Bytes are "woven" in to each-other e.g.
/// ```text
/// abcde -> acedb
///   or
/// abcdef -> acefdb
/// ```
///
/// ## Dickwinding
/// This was named by Sausage and first implemented in the EOProxy project.
/// There are two numbers sent from the server to the client on connect
/// between 6 and 12 that represent a "send packet swap multiple"
/// and a "receive packet swap multiple".
///
/// Any two bytes next to each other in the packet data that are
/// divisible by that number are swapped.
///
/// For more details see [Packet](https://eoserv.net/wiki/wiki?page=Packet)
pub fn decrypt_packet(buf: &mut [u8], swap_multiple: u8)
    requires
        encryptable(old(buf)@) ==> swap_multiple != 0,
    ensures
        final(buf)@ == decrypted_packet(old(buf)@, swap_multiple),
{
    if !valid_for_encryption(buf) {
        return ;
    }
    let length: usize = buf.len();
    let mut tmp: Vec<u8> = vec![0; length];
    let little_half: usize = length / 2;
    let big_half: usize = length - little_half;
    let mut i: usize = 0;
    while i < big_half
        invariant
            0 <= i <= big_half,
            little_half == length / 2,
            big_half == length - little_half,
            buf@.len() == length,
            tmp@.len() == length,
            forall|j: int| 0 <= j < i ==> tmp@[j] == deinterleaved(buf@)[j],
        decreases big_half - i,
    {
        tmp[i] = flip(buf[i * 2]);
        i += 1;
    }
    let mut i: usize = 0;
    while i < little_half
        invariant
            0 <= i <= little_half,
            little_half == length / 2,
            big_half == length - little_half,
            buf@.len() == length,
            tmp@.len() == length,
            forall|j: int| 0 <= j < big_half ==> tmp@[j] == deinterleaved(buf@)[j],
            forall|j: int| length - i <= j < length ==> tmp@[j] == deinterleaved(buf@)[j],
        decreases little_half - i,
    {
        tmp[length - 1 - i] = flip(buf[(i * 2) + 1]);
        i += 1;
    }
    assert(tmp@ =~= deinterleaved(buf@));
    swap_multiples(tmp.as_mut_slice(), swap_multiple);
    copy_over(buf, tmp.as_slice());
}

} // verus!
