//! A constant-product market maker for SOLEN/STT: its arithmetic, storage
//! layout, argument decoding, state transitions and wire encodings.

pub mod wide;
pub mod amm;
pub mod codec;
pub mod keys;
pub mod dex;
pub mod wire;
pub mod dispatch;
pub mod laws;
pub mod outcomes;
