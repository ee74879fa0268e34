//! A verified CHIP-8 virtual machine: a fetch-decode-execute engine over a
//! 4096-byte memory image, a 16-register file, a bounded call stack, two
//! countdown timers, a 16-key input latch, and a 64x32 monochrome frame
//! buffer.
//!
//! The machine's behaviour is pinned down by a ghost model ([`state::ChipState`])
//! and a step relation over it; every instruction handler is proved to realise
//! its transition exactly. ROM loading from storage, rendering, and host key
//! mapping are the host's business and stay outside this crate's core.

pub mod chip;
pub mod error;
pub mod opcode;
pub mod props;
pub mod state;
