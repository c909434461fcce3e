//! Reversal of the runs of multiples in a sequence of bytes.

use vstd::prelude::*;

verus! {

/// Whether `byte` is divisible by `multiple`.
pub open spec fn is_multiple(byte: u8, multiple: u8) -> bool {
    byte as int % multiple as int == 0
}

/// Where the run of multiples that reaches up to `i` starts: the least
/// index from which every byte before `i` is a multiple.
pub open spec fn run_start(bytes: Seq<u8>, multiple: u8, i: int) -> int
    decreases i,
{
    if 0 < i <= bytes.len() && is_multiple(bytes[i - 1], multiple) {
        run_start(bytes, multiple, i - 1)
    } else {
        i
    }
}

/// Where the run of multiples that starts after `i` ends: the greatest
/// index up to which every byte after `i` is a multiple.
pub open spec fn run_end(bytes: Seq<u8>, multiple: u8, i: int) -> int
    decreases bytes.len() - i,
{
    if 0 <= i + 1 < bytes.len() && is_multiple(bytes[i + 1], multiple) {
        run_end(bytes, multiple, i + 1)
    } else {
        i
    }
}

/// `bytes` with each of its runs of multiples reversed.
///
/// A run is a stretch of neighbouring bytes, each divisible by
/// `multiple`, that no such byte borders. A multiple at `i` changes
/// places with the one that lies as far from the end of its run as `i`
/// does from the start; every other byte stays.
pub open spec fn swapped_multiples(bytes: Seq<u8>, multiple: u8) -> Seq<u8> {
    Seq::new(
        bytes.len(),
        |i: int|
            if is_multiple(bytes[i], multiple) {
                bytes[run_start(bytes, multiple, i) + run_end(bytes, multiple, i) - i]
            } else {
                bytes[i]
            },
    )
}

/// `run_start` stops at the first byte of a run.
proof fn lemma_run_start_at(bytes: Seq<u8>, multiple: u8, start: int, i: int)
    requires
        0 <= start <= i <= bytes.len(),
        forall|j: int| start <= j < i ==> is_multiple(#[trigger] bytes[j], multiple),
        start == 0 || !is_multiple(bytes[start - 1], multiple),
    ensures
        run_start(bytes, multiple, i) == start,
    decreases i - start,
{
    if start < i {
        lemma_run_start_at(bytes, multiple, start, i - 1);
    }
}

/// `run_end` stops at the last byte of a run.
proof fn lemma_run_end_at(bytes: Seq<u8>, multiple: u8, i: int, end: int)
    requires
        -1 <= i <= end < bytes.len(),
        forall|j: int| i < j <= end ==> is_multiple(#[trigger] bytes[j], multiple),
        end == bytes.len() - 1 || !is_multiple(bytes[end + 1], multiple),
    ensures
        run_end(bytes, multiple, i) == end,
    decreases end - i,
{
    if i < end {
        lemma_run_end_at(bytes, multiple, i + 1, end);
    }
}

/// The run that a multiple lies in holds multiples only, and is a
/// run: no multiple borders it.
proof fn lemma_run_bounds(bytes: Seq<u8>, multiple: u8, i: int)
    requires
        0 <= i < bytes.len(),
    ensures
        0 <= run_start(bytes, multiple, i) <= i <= run_end(bytes, multiple, i) < bytes.len(),
        forall|j: int|
            run_start(bytes, multiple, i) <= j <= run_end(bytes, multiple, i) && j != i
                ==> is_multiple(#[trigger] bytes[j], multiple),
        run_start(bytes, multiple, i) == 0 || !is_multiple(
            bytes[run_start(bytes, multiple, i) - 1],
            multiple,
        ),
        run_end(bytes, multiple, i) == bytes.len() - 1 || !is_multiple(
            bytes[run_end(bytes, multiple, i) + 1],
            multiple,
        ),
{
    lemma_run_start_bounds(bytes, multiple, i);
    lemma_run_end_bounds(bytes, multiple, i);
}

/// From `run_start` up to `i` every byte is a multiple, and the byte
/// before is none.
proof fn lemma_run_start_bounds(bytes: Seq<u8>, multiple: u8, i: int)
    requires
        0 <= i <= bytes.len(),
    ensures
        0 <= run_start(bytes, multiple, i) <= i,
        forall|j: int|
            run_start(bytes, multiple, i) <= j < i ==> is_multiple(#[trigger] bytes[j], multiple),
        run_start(bytes, multiple, i) == 0 || !is_multiple(
            bytes[run_start(bytes, multiple, i) - 1],
            multiple,
        ),
    decreases i,
{
    if 0 < i && is_multiple(bytes[i - 1], multiple) {
        lemma_run_start_bounds(bytes, multiple, i - 1);
    }
}

/// From `i` up to `run_end` every byte after `i` is a multiple, and the
/// byte after is none.
proof fn lemma_run_end_bounds(bytes: Seq<u8>, multiple: u8, i: int)
    requires
        -1 <= i < bytes.len(),
    ensures
        i <= run_end(bytes, multiple, i) < bytes.len(),
        forall|j: int|
            i < j <= run_end(bytes, multiple, i) ==> is_multiple(#[trigger] bytes[j], multiple),
        run_end(bytes, multiple, i) == bytes.len() - 1 || !is_multiple(
            bytes[run_end(bytes, multiple, i) + 1],
            multiple,
        ),
    decreases bytes.len() - i,
{
    if i + 1 < bytes.len() && is_multiple(bytes[i + 1], multiple) {
        lemma_run_end_bounds(bytes, multiple, i + 1);
    }
}

/// The bytes from `start` to `end`, if they are a run, change places
/// end for end.
proof fn lemma_run_swapped(bytes: Seq<u8>, multiple: u8, start: int, end: int)
    requires
        0 <= start <= end < bytes.len(),
        forall|j: int| start <= j <= end ==> is_multiple(#[trigger] bytes[j], multiple),
        start == 0 || !is_multiple(bytes[start - 1], multiple),
        end == bytes.len() - 1 || !is_multiple(bytes[end + 1], multiple),
    ensures
        forall|j: int|
            start <= j <= end ==> #[trigger] swapped_multiples(bytes, multiple)[j] == bytes[start
                + end - j],
{
    assert forall|j: int| start <= j <= end implies #[trigger] swapped_multiples(
        bytes,
        multiple,
    )[j] == bytes[start + end - j] by {
        lemma_run_start_at(bytes, multiple, start, j);
        lemma_run_end_at(bytes, multiple, j, end);
    }
}

/// Reversing the runs of multiples twice gives the bytes back.
pub proof fn lemma_swap_multiples_twice(bytes: Seq<u8>, multiple: u8)
    requires
        multiple != 0,
    ensures
        swapped_multiples(swapped_multiples(bytes, multiple), multiple) == bytes,
{
    let once = swapped_multiples(bytes, multiple);
    let twice = swapped_multiples(once, multiple);
    assert forall|i: int| 0 <= i < bytes.len() implies is_multiple(once[i], multiple)
        == is_multiple(bytes[i], multiple) by {
        lemma_run_bounds(bytes, multiple, i);
    }
    assert forall|i: int| 0 <= i < bytes.len() implies twice[i] == bytes[i] by {
        if is_multiple(bytes[i], multiple) {
            lemma_run_bounds(bytes, multiple, i);
            let start = run_start(bytes, multiple, i);
            let end = run_end(bytes, multiple, i);
            assert forall|j: int| start <= j <= end implies is_multiple(
                #[trigger] once[j],
                multiple,
            ) by {}
            lemma_run_swapped(bytes, multiple, start, end);
            lemma_run_swapped(once, multiple, start, end);
        }
    }
}

/// Reverses the bytes from `start` to `end`.
fn reverse_run(bytes: &mut [u8], start: usize, end: usize)
    requires
        start <= end < old(bytes)@.len(),
    ensures
        final(bytes)@.len() == old(bytes)@.len(),
        forall|j: int| start <= j <= end ==> final(bytes)@[j] == old(bytes)@[start + end - j],
        forall|j: int|
            0 <= j < start || end < j < old(bytes)@.len() ==> final(bytes)@[j] == old(bytes)@[j],
{
    let mut low: usize = start;
    let mut high: usize = end;
    while low < high
        invariant
            start <= low <= high + 1 <= end + 1 <= bytes@.len(),
            low + high == start + end,
            bytes@.len() == old(bytes)@.len(),
            forall|j: int|
                start <= j < low || high < j <= end ==> bytes@[j] == old(bytes)@[start + end - j],
            forall|j: int| low <= j <= high ==> bytes@[j] == old(bytes)@[j],
            forall|j: int|
                0 <= j < start || end < j < old(bytes)@.len() ==> bytes@[j] == old(bytes)@[j],
        decreases high + 1 - low,
    {
        let front: u8 = bytes[low];
        bytes[low] = bytes[high];
        bytes[high] = front;
        low += 1;
        high -= 1;
    }
}

/// Swaps the order of contiguous bytes in a sequence of bytes that are divisible by a given
/// multiple value.
///
/// Used when encrypting and decrypting packets and data files.
pub fn swap_multiples(bytes: &mut [u8], multiple: u8)
    requires
        multiple != 0,
    ensures
        final(bytes)@ == swapped_multiples(old(bytes)@, multiple),
{
    let length: usize = bytes.len();
    let mut sequence_length: usize = 0;
    let mut i: usize = 0;
    while i < length
        invariant
            multiple != 0,
            length == old(bytes)@.len(),
            bytes@.len() == length,
            0 <= sequence_length <= i <= length,
            forall|j: int|
                i - sequence_length <= j < i ==> is_multiple(#[trigger] old(bytes)@[j], multiple),
            i - sequence_length == 0 || !is_multiple(
                old(bytes)@[i - sequence_length - 1],
                multiple,
            ),
            forall|j: int|
                0 <= j < i - sequence_length ==> bytes@[j] == swapped_multiples(
                    old(bytes)@,
                    multiple,
                )[j],
            forall|j: int| i - sequence_length <= j < length ==> bytes@[j] == old(bytes)@[j],
        decreases length - i,
    {
        if bytes[i] % multiple == 0 {
            sequence_length += 1;
        } else {
            if sequence_length > 0 {
                let start: usize = i - sequence_length;
                let end: usize = i - 1;
                proof {
                    lemma_run_swapped(old(bytes)@, multiple, start as int, end as int);
                }
                if sequence_length > 1 {
                    reverse_run(bytes, start, end);
                }
            }
            sequence_length = 0;
        }
        i += 1;
    }
    if sequence_length > 0 {
        let start: usize = length - sequence_length;
        let end: usize = length - 1;
        proof {
            lemma_run_swapped(old(bytes)@, multiple, start as int, end as int);
        }
        if sequence_length > 1 {
            reverse_run(bytes, start, end);
        }
    }
}

} // verus!
