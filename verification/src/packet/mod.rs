//! What a packet carries besides its data.

mod sequencer;
pub use sequencer::Sequencer;
pub use sequencer::{
    generate_sequence_start, get_init_sequence_bytes, get_init_sequence_start,
    get_ping_sequence_bytes, get_ping_sequence_start, init_sequence_bytes_with,
    ping_sequence_bytes_with,
};
pub use sequencer::{
    init_seq1_max, init_seq1_min, init_seq2, init_sequence_start, ping_sequence_start,
};
pub use sequencer::{
    lemma_init_sequence_bytes_in_range, lemma_init_sequence_start_inverts,
    lemma_ping_sequence_start_inverts,
};
