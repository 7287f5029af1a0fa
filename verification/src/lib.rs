//! Core of an 8-bit CPU emulator: processor state, the instruction catalog,
//! and the fetch/decode loop that walks the program counter over a loaded image.

pub mod key;
pub mod catalog;
pub mod registers;
pub mod cpu;
pub mod decode;
