//! Codec for the binary protocol of the game "Endless Online" (EO): a
//! variable-width number encoding, a stream reader and writer over it, the
//! string and packet ciphers, and packet sequence numbers.
//!
//! The crate is verified with Verus. Each function states in its contract
//! what it returns and what it changes, over the mathematical model of its
//! data: a buffer is the sequence of its bytes, a reader that sequence with
//! a cursor and the bounds of a chunk. No verified function panics or
//! overflows on an input that its precondition admits.
//!
//! Three things come from other crates and are believed, not proved: the
//! buffers of `bytes` ([data::bytes_seq], [data::bytes_mut_seq]), the code
//! page of `encoding_rs` ([data::windows_1252_decoded],
//! [data::windows_1252_encoded]), and the random numbers of `rand`. What is
//! believed of each stands in the contract of the one function that calls
//! it.

pub mod data;
pub mod encrypt;
pub mod packet;
