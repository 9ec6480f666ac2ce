//! Cross-process wakeup handles: a bit-packed handle format, a dispatcher that
//! routes each handle to its backend by tag, and a pool of real-time signal
//! numbers that hands out and takes back waitable slots.

pub mod error;
pub mod handle;
pub mod interface;
pub mod laws;
pub mod signal;

