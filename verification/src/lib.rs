//! A user-space simulator for a 32-bit little-endian integer instruction set.
//!
//! A flat program image is executed against a byte-addressable memory and a
//! 32-entry register file until the halt sentinel word is fetched.  Three
//! execution models share one instruction semantics: a sequential
//! fetch-decode-execute reference, a five-stage in-order pipeline, and an
//! out-of-order scheduler that retires in program order.

pub mod word;
pub mod fixed_size_deque;
pub mod mem;
pub mod reg;
pub mod instr;
pub mod program_state;
pub mod kernel;
pub mod simulate;
pub mod sim;
