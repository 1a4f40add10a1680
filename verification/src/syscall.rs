//! Kernel calls as values: the eight registers that a trap is made with.
//!
//! Nothing here traps. A caller that owns the machine loads the registers of
//! a [`Trap`], executes `ecall` and hands the kernel's answer to
//! [`Trap::resume`].

use vstd::prelude::*;

verus! {

/// Number of the `exit` call of RISC-V Linux.
pub const SYS_EXIT: u64 = 93;

/// Number of the `write` call of RISC-V Linux.
pub const SYS_WRITE: u64 = 64;

/// File descriptor of standard output.
pub const STDOUT: u64 = 1;

/// Status of a process that ran to its end.
pub const EXIT_SUCCESS: u64 = 0;

/// Status of a process that ended on an internal fault.
pub const EXIT_FAULT: u64 = 101;

/// One kernel call: `a0` to `a6` carry the arguments, `a7` the call's number.
#[derive(Clone, Copy, Debug, PartialEq, Eq, Structural)]
pub struct Trap {
    pub a0: u64,
    pub a1: u64,
    pub a2: u64,
    pub a3: u64,
    pub a4: u64,
    pub a5: u64,
    pub a6: u64,
    pub a7: u64,
}

/// What the caller does once the kernel has handed control back.
#[derive(Clone, Copy, Debug, PartialEq, Eq, Structural)]
pub enum Resume {
    /// Go on with the kernel's answer, as it came.
    Return(u64),
    /// The process should be gone: spin, and issue no further call.
    Spin,
}

/// The registers of `exit(code)`: the status in `a0`, the rest zero.
pub open spec fn exit_trap(code: u64) -> Trap {
    Trap { a0: code, a1: 0, a2: 0, a3: 0, a4: 0, a5: 0, a6: 0, a7: SYS_EXIT }
}

/// The registers of `write(fd, buf, count)`: descriptor, address and length
/// in `a0` to `a2`, the rest zero.
pub open spec fn write_trap(fd: u64, buf: u64, count: u64) -> Trap {
    Trap { a0: fd, a1: buf, a2: count, a3: 0, a4: 0, a5: 0, a6: 0, a7: SYS_WRITE }
}

impl Trap {
    /// Whether this call ends the process.
    pub open spec fn is_exit(self) -> bool {
        self.a7 == SYS_EXIT
    }

    /// Decides what follows the trap, given the value the kernel left in
    /// `a0`. The answer of any call but `exit` is passed through untouched;
    /// after an `exit` that came back there is nothing left but to spin.
    pub fn resume(&self, answer: u64) -> (next: Resume)
        ensures
            next == (if self.is_exit() {
                Resume::Spin
            } else {
                Resume::Return(answer)
            }),
    {
        if self.a7 == SYS_EXIT {
            Resume::Spin
        } else {
            Resume::Return(answer)
        }
    }
}

/// The call that ends the process with status `code`.
pub fn syscall_exit(code: u64) -> (trap: Trap)
    ensures
        trap == exit_trap(code),
{
    Trap { a0: code, a1: 0, a2: 0, a3: 0, a4: 0, a5: 0, a6: 0, a7: SYS_EXIT }
}

/// The call that writes the `count` bytes at address `buf` to descriptor
/// `fd`. Its answer is the number of bytes written or the kernel's error
/// code; a short write is not tried again.
pub fn syscall_write(fd: u64, buf: u64, count: u64) -> (trap: Trap)
    ensures
        trap == write_trap(fd, buf, count),
{
    Trap { a0: fd, a1: buf, a2: count, a3: 0, a4: 0, a5: 0, a6: 0, a7: SYS_WRITE }
}

/// The call a panic ends in: `exit` with the fault status, whatever the panic
/// was about.
pub fn panic_handler() -> (trap: Trap)
    ensures
        trap == exit_trap(EXIT_FAULT),
        trap.is_exit(),
        trap.a0 != EXIT_SUCCESS,
{
    syscall_exit(EXIT_FAULT)
}

} // verus!
