//! Encryption of a packet.

use super::swap_multiples::{swap_multiples, swapped_multiples};
use super::{copy_over, encryptable, flip, flipped, valid_for_encryption};
use vstd::prelude::*;

verus! {

/// `bytes` woven and flipped: the bytes from the front, in their order,
/// go to the even places, those from the back, last first, to the odd
/// places, and each is flipped on its way.
///
/// ```text
/// abcde -> aebdc
///   or
/// abcdef -> afbecd
/// ```
pub open spec fn interleaved(bytes: Seq<u8>) -> Seq<u8> {
    Seq::new(
        bytes.len(),
        |k: int|
            if k % 2 == 0 {
                flipped(bytes[k / 2])
            } else {
                flipped(bytes[bytes.len() - 1 - k / 2])
            },
    )
}

/// The cipher text of the packet `bytes`: its runs of multiples of
/// `multiple` reversed, and the result woven and flipped. A packet that
/// the cipher does not apply to is its own cipher text.
pub open spec fn encrypted_packet(bytes: Seq<u8>, multiple: u8) -> Seq<u8> {
    if encryptable(bytes) {
        interleaved(swapped_multiples(bytes, multiple))
    } else {
        bytes
    }
}

/// Encrypts a packet.
///
/// Packets are encrypted in three steps:
/// 1. "dickwinding"
/// 2. Flipping
/// 3. Interleaving
///
/// ## Dickwinding
/// This was named by Sausage and first implemented in the EOProxy project.
/// There are two numbers sent from the server to the client on connect
/// between 6 and 12 that represent a "send packet swap multiple"
/// and a "receive packet swap multiple".
///
/// Any two bytes next to each other in the packet data that are
/// divisible by that number are swapped.
///
/// ## Flipping
/// Each byte of the packet has their most significant bits flipped
///
/// ## Interleaving
/// Bytes are "woven" in to each-other e.g.
/// ```text
/// abcde -> aebdc
///   or
/// abcdef -> afbecd
/// ```
/// For more details see [Packet](https://eoserv.net/wiki/wiki?page=Packet)
pub fn encrypt_packet(buf: &mut [u8], swap_multiple: u8)
    requires
        encryptable(old(buf)@) ==> swap_multiple != 0,
    ensures
        final(buf)@ == encrypted_packet(old(buf)@, swap_multiple),
{
    if !valid_for_encryption(buf) {
        return ;
    }
    swap_multiples(buf, swap_multiple);

    let length: usize = buf.len();
    let mut tmp: Vec<u8> = vec![0; length];
    let little_half: usize = length / 2;
    let big_half: usize = length - little_half;
    let mut i: usize = 0;
    while i < big_half
        invariant
            0 <= i <= big_half,
            little_half == length / 2,
            big_half == length - little_half,
            buf@.len() == length,
            tmp@.len() == length,
            forall|k: int|
                0 <= k < length && k % 2 == 0 && k / 2 < i ==> tmp@[k] == interleaved(buf@)[k],
        decreases big_half - i,
    {
        tmp[i * 2] = flip(buf[i]);
        i += 1;
    }
    let mut i: usize = 0;
    while i < little_half
        invariant
            0 <= i <= little_half,
            little_half == length / 2,
            big_half == length - little_half,
            buf@.len() == length,
            tmp@.len() == length,
            forall|k: int| 0 <= k < length && k % 2 == 0 ==> tmp@[k] == interleaved(buf@)[k],
            forall|k: int|
                0 <= k < length && k % 2 == 1 && k / 2 < i ==> tmp@[k] == interleaved(buf@)[k],
        decreases little_half - i,
    {
        tmp[(i * 2) + 1] = flip(buf[length - 1 - i]);
        i += 1;
    }
    copy_over(buf, tmp.as_slice());
}

} // verus!
