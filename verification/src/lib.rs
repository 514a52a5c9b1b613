//! Decoder for Blu-ray presentation graphic streams: segment framing, the
//! four segment decoders, the run-length bitmap codec and the display-set
//! assembler, each with a machine-checked contract.

pub mod bytes;
pub mod color;
pub mod decode;
pub mod display_set;
pub mod error;
pub mod segment;
pub mod stream;
pub mod time;
pub mod viewer;
