//! Packs a binary image into a cassette tape image in the "system" format of
//! the TRS-80 Model I: a leader, a sync byte, a six-character entry name, the
//! image cut into checksummed chunks that carry their load addresses, and an
//! end marker with the entry point.

pub mod entry_name;
pub mod hex;
pub mod loader;
pub mod options;
pub mod packing;
pub mod tape;
