//! The logic of a freestanding `echo` for RISC-V Linux: which registers a
//! kernel call is made with, and which line the arguments give.

pub mod echo;
pub mod laws;
pub mod program;
pub mod syscall;
