//! The program as a whole: what it writes and how it ends.

use vstd::prelude::*;
use vstd::string::*;
use vstd::utf8::*;
use crate::echo::{echo, echo_text, line_bytes, raw_args, well_formed};
use crate::syscall::{exit_trap, syscall_exit, syscall_write, write_trap, Trap, EXIT_SUCCESS, STDOUT};

verus! {

/// Size in bytes of the arena that every allocation of the program is drawn
/// from. The arena does not grow: a request that it cannot serve is a fault.
pub const ARENA_SIZE: usize = 1024;

/// A run that reached its end: the bytes for standard output, as text, and
/// the status to exit with.
#[derive(Clone, Debug)]
pub struct Completion {
    pub output: String,
    pub status: u64,
}

impl Completion {
    /// The length of the output in bytes, as the machine counts it.
    pub open spec fn output_len(&self) -> u64 {
        encode_utf8(self.output@).len() as usize as u64
    }

    /// The one `write` of the run, for an output buffer that lies at address
    /// `buf`: all of the output, to standard output.
    pub fn write_call(&self, buf: u64) -> (trap: Trap)
        ensures
            trap == write_trap(STDOUT, buf, self.output_len()),
    {
        let count: usize = self.output.as_str().len();
        syscall_write(STDOUT, buf, count as u64)
    }

    /// The `exit` that follows the write.
    pub fn exit_call(&self) -> (trap: Trap)
        ensures
            trap == exit_trap(self.status),
    {
        syscall_exit(self.status)
    }
}

/// Runs the program on the argument vector `argv`, whose entry at index 0 is
/// the program's own path. The output is the echoed line; the status is
/// success whatever the arguments are, and whatever becomes of the write.
pub fn run(argv: &Vec<Vec<u8>>) -> (done: Completion)
    ensures
        done.output@ == echo_text(argv@),
        well_formed(argv@) ==> encode_utf8(done.output@) == line_bytes(raw_args(argv@)),
        done.status == EXIT_SUCCESS,
{
    Completion { output: echo(argv), status: EXIT_SUCCESS }
}

} // verus!
