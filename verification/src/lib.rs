//! Integer core of a music-reactive LED matrix driver: buffer management,
//! index arithmetic, median window bookkeeping, frame layout, hop hand-off
//! and serial framing, each with a machine-checked contract.

pub mod audio;
pub mod cfg;
pub mod color;
pub mod serial;
pub mod state;
pub mod util;
