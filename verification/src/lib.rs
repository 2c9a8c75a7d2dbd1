//! Protocol and flashing logic for reprogramming a SAM3X8E microcontroller
//! through its ROM boot monitor, written without any I/O of its own.
//!
//! Every function here maps plain values to plain values: the bytes of a
//! monitor command, the meaning of a response, the next memory access of a
//! flash command or of a whole upload. The program around this library moves
//! the bytes over the serial line.

pub mod hex;

pub mod result;
pub mod sam_ba;
pub mod eefc;
pub mod upload;
pub mod target;
pub mod rtt;
pub mod cli;
