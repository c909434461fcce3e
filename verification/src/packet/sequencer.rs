//! Packet sequence numbers.

use crate::data::CHAR_MAX;
use rand::Rng;
use vstd::prelude::*;

verus! {

/// Used for packet sequencing
///
/// The sequence value is sent at the start of every client packet
/// and verified on the server.
///
/// The starting value can be reset at different stages in game play.
///
/// In the game protocol these places are:
/// - Handshake (Init_Init packet)
/// - Account creation
/// - Server pings
#[derive(Debug)]
pub struct Sequencer {
    start: i32,
    counter: i32,
}

impl Sequencer {
    /// The starting value, to which the counter is added.
    pub closed spec fn start(&self) -> int {
        self.start as int
    }

    /// The counter: how far the last sequence value lay above the
    /// starting value.
    pub closed spec fn counter(&self) -> int {
        self.counter as int
    }

    /// The counter of a sequencer never leaves the range 0 to 9.
    #[verifier::type_invariant]
    spec fn counter_in_range(&self) -> bool {
        0 <= self.counter < 10
    }

    /// creates a new [Sequencer] with the specified starting value
    pub fn new(start: i32) -> (sequencer: Self)
        ensures
            sequencer.start() == start,
            sequencer.counter() == 0,
    {
        Self { start, counter: 0 }
    }

    /// returns the next sequence value
    ///
    /// The counter goes up by one, and from 9 back to 0; the value is the
    /// starting value with the new counter added.
    pub fn next_sequence(&mut self) -> (sequence: i32)
        requires
            old(self).start() + (old(self).counter() + 1) % 10 <= i32::MAX,
        ensures
            final(self).start() == old(self).start(),
            final(self).counter() == (old(self).counter() + 1) % 10,
            sequence == final(self).start() + final(self).counter(),
    {
        proof {
            use_type_invariant(&*self);
        }
        self.counter = (self.counter + 1) % 10;
        self.start + self.counter
    }

    /// sets a new starting value for the sequencer
    pub fn set_start(&mut self, start: i32)
        ensures
            final(self).start() == start,
            final(self).counter() == old(self).counter(),
    {
        proof {
            use_type_invariant(&*self);
        }
        self.start = start;
    }

    /// gets the current starting value for the sequencer
    pub fn get_start(&self) -> (start: i32)
        ensures
            start == self.start(),
    {
        self.start
    }
}

/// A number drawn at random from `low` to `high`, both included.
///
/// Calls `rand::thread_rng` for the generator of this thread and
/// `rand::Rng::gen_range` on it with the range `low..=high`. Nothing is
/// claimed of the number but that it lies in the range; two calls may
/// differ. `gen_range` panics on an empty range, which the precondition
/// leaves out. That the operating system may have no seed for the
/// generator is not modelled.
#[verifier::external_body]
fn random_between(low: i32, high: i32) -> (number: i32)
    requires
        low <= high,
    ensures
        low <= number <= high,
{
    rand::thread_rng().gen_range(low..=high)
}

/// returns a random sequence start value
///
/// The value lies between 0 and [CHAR_MAX] less ten, so that no sequence
/// value from it needs a second byte.
pub fn generate_sequence_start() -> (start: i32)
    ensures
        0 <= start <= CHAR_MAX - 10,
{
    random_between(0, CHAR_MAX - 10)
}

/// The starting value that the two sequence bytes of an Init_Init packet
/// stand for.
pub open spec fn init_sequence_start(s1: int, s2: int) -> int {
    s1 * 7 + s2 - 13
}

/// The starting value that the two sequence bytes of a Ping packet stand
/// for.
pub open spec fn ping_sequence_start(s1: int, s2: int) -> int {
    s1 - s2
}

/// The least first byte that can go with `start` in an Init_Init packet:
/// below it the second byte would not fit an EO char.
pub open spec fn init_seq1_min(start: int) -> int {
    if start >= 233 {
        (start - 233) / 7
    } else {
        0
    }
}

/// The greatest first byte that can go with `start` in an Init_Init
/// packet: above it the second byte would be negative.
pub open spec fn init_seq1_max(start: int) -> int {
    if start >= -13 {
        (start + 13) / 7
    } else {
        0
    }
}

/// The second byte that goes with the first byte `seq1` for `start` in an
/// Init_Init packet.
pub open spec fn init_seq2(start: int, seq1: int) -> int {
    start - seq1 * 7 + 13
}

/// The starting value that the sequence bytes of an Init_Init packet
/// stand for is the one they were derived from, whatever first byte was
/// chosen.
pub proof fn lemma_init_sequence_start_inverts(start: int, seq1: int)
    ensures
        init_sequence_start(seq1, init_seq2(start, seq1)) == start,
{
}

/// The first bytes from [init_seq1_min] to [init_seq1_max] are those,
/// and for a `start` from -13 up all those, that are not negative and
/// leave a second byte from 0 to [CHAR_MAX] less one.
pub proof fn lemma_init_sequence_bytes_in_range(start: int, seq1: int)
    requires
        -19 <= start,
    ensures
        init_seq1_min(start) <= seq1 <= init_seq1_max(start) ==> 0 <= seq1 && init_seq2(
            start,
            seq1,
        ) <= CHAR_MAX - 1,
        -13 <= start ==> (init_seq1_min(start) <= seq1 <= init_seq1_max(start) <==> 0 <= seq1 && 0
            <= init_seq2(start, seq1) <= CHAR_MAX - 1),
{
}

/// The starting value that the sequence bytes of a Ping packet stand for
/// is the one they were derived from, whatever first byte was chosen.
pub proof fn lemma_ping_sequence_start_inverts(start: int, seq1: int)
    ensures
        ping_sequence_start(seq1, seq1 - start) == start,
{
}

/// returns the sequence bytes for `start` whose first byte lies `choice`
/// above the least it can be
///
/// This is [get_init_sequence_bytes] with the choice made.
pub fn init_sequence_bytes_with(start: i32, choice: i32) -> (bytes: [i32; 2])
    requires
        -19 <= start <= i32::MAX - 13,
        0 <= choice <= init_seq1_max(start as int) - init_seq1_min(start as int),
    ensures
        bytes[0] == init_seq1_min(start as int) + choice,
        bytes[1] == init_seq2(start as int, bytes[0] as int),
{
    let seq1_min: i32 = if start >= 233 { (start - (CHAR_MAX - 1) + 13 + 6) / 7 } else { 0 };
    let seq1: i32 = choice + seq1_min;
    let seq2: i32 = start - seq1 * 7 + 13;
    [seq1, seq2]
}

/// returns sequence bytes from a starting value
///
/// used by the server for Init_Init packet
///
/// The first byte is drawn at random among those that leave a second
/// byte from 0 to [CHAR_MAX] less one. A `start` below -13 leaves none:
/// down to -19 its first byte is 0 and its second byte negative, and
/// below that there is no first byte to draw.
pub fn get_init_sequence_bytes(start: i32) -> (bytes: [i32; 2])
    requires
        -19 <= start <= i32::MAX - 13,
    ensures
        init_sequence_start(bytes[0] as int, bytes[1] as int) == start,
        init_seq1_min(start as int) <= bytes[0] <= init_seq1_max(start as int),
        0 <= bytes[0],
        bytes[1] <= CHAR_MAX - 1,
        start >= -13 ==> 0 <= bytes[1],
{
    let seq1_min: i32 = if start >= 233 { (start - (CHAR_MAX - 1) + 13 + 6) / 7 } else { 0 };
    let seq1_max: i32 = (start + 13) / 7;
    let choice: i32 = random_between(0, seq1_max - seq1_min);
    init_sequence_bytes_with(start, choice)
}

/// returns the initial sequence start value from sequence bytes
///
/// used by the client after receiving Init_Init packet
pub fn get_init_sequence_start(s1: i32, s2: i32) -> (start: i32)
    requires
        i32::MIN <= init_sequence_start(s1 as int, s2 as int) <= i32::MAX,
    ensures
        start == init_sequence_start(s1 as int, s2 as int),
{
    (s1 as i64 * 7 + s2 as i64 - 13) as i32
}

/// returns the sequence bytes for `start` whose first byte is `seq1`
///
/// This is [get_ping_sequence_bytes] with the choice made.
pub fn ping_sequence_bytes_with(start: i32, seq1: i32) -> (bytes: [i32; 2])
    requires
        start <= seq1 <= start + 252,
    ensures
        bytes[0] == seq1,
        bytes[1] == seq1 - start,
{
    let seq2: i32 = seq1 - start;
    [seq1, seq2]
}

/// returns sequence bytes from a starting value
///
/// used by the server for Ping packet
///
/// The first byte is drawn at random from `start` to `start` and 252.
pub fn get_ping_sequence_bytes(start: i32) -> (bytes: [i32; 2])
    requires
        start <= i32::MAX - 252,
    ensures
        ping_sequence_start(bytes[0] as int, bytes[1] as int) == start,
        start <= bytes[0] <= start + 252,
        0 <= bytes[1] <= CHAR_MAX - 1,
{
    let seq1_max: i32 = start + 252;
    let seq1_min: i32 = start;
    let seq1: i32 = random_between(seq1_min, seq1_max);
    ping_sequence_bytes_with(start, seq1)
}

/// returns the ping sequence start value from sequence bytes
///
/// used by the client after receiving Ping packet
pub fn get_ping_sequence_start(s1: i32, s2: i32) -> (start: i32)
    requires
        i32::MIN <= ping_sequence_start(s1 as int, s2 as int) <= i32::MAX,
    ensures
        start == ping_sequence_start(s1 as int, s2 as int),
{
    (s1 as i64 - s2 as i64) as i32
}

} // verus!
