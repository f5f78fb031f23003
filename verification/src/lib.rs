//! Verified core of a streaming audio player.
//!
//! A decoder thread turns a compressed file into a stream of samples, a
//! bounded ring buffer hands them to the device callback, and the callback
//! runs them through an equalizer and the volume. This crate holds the part
//! of that pipeline that decides: what the ring buffer keeps and gives, what
//! the decoder does next, what the callback writes, how the controls change
//! the shared state and when a decoder thread may exist. Around it stand the
//! player's named properties and the commands that act on them.
//!
//! Samples are 32-bit words in the IEEE 754 single-precision encoding. The
//! crate moves and compares them itself. Where it computes with their values,
//! in the equalizer and for the volume, it states the formulas and takes the
//! floating-point operations from the program that uses it, as it leaves
//! file and device access, threads and sleeping to that program.

pub mod arith;
pub mod audio;
pub mod commands;
pub mod decoder;
pub mod eq;
pub mod eq_laws;
pub mod output;
pub mod player;
pub mod properties;
pub mod repl;
pub mod ring;
pub mod sample;
