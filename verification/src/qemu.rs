//! The test harness's exit protocol: writing a code to the debug
//! exit port makes the emulator terminate with a status derived from
//! that code. The status computation is checked here; the port write
//! itself is the harness's hardware step.

use vstd::prelude::*;

verus! {

/// The exit codes the kernel's test harness reports through the
/// debug exit device.
#[derive(Clone, Copy, PartialEq, Eq, Structural, Debug)]
pub enum QemuExitCode {
    Success,
    Failed,
}

impl QemuExitCode {
    /// The value written to the debug exit port for each outcome.
    pub open spec fn spec_u32(self) -> u32 {
        match self {
            QemuExitCode::Success => 0x10,
            QemuExitCode::Failed => 0x11,
        }
    }

    pub fn as_u32(self) -> (r: u32)
        ensures
            r == self.spec_u32(),
    {
        match self {
            QemuExitCode::Success => 0x10,
            QemuExitCode::Failed => 0x11,
        }
    }
}

/// The process exit status the emulator reports after a write of
/// `value` to the debug exit port: the value shifted left once, with
/// the low bit set.
pub open spec fn spec_exit_status(value: u32) -> int {
    value * 2 + 1
}

/// Computes the emulator exit status a debug-exit write will cause,
/// so the harness can tell a deliberate success exit apart from any
/// other termination.
pub fn exit_status(code: QemuExitCode) -> (r: u32)
    ensures
        r == spec_exit_status(code.spec_u32()),
        code is Success ==> r == 0x21,
        code is Failed ==> r == 0x23,
{
    let value = code.as_u32();
    proof {
        assert((value << 1u32) | 1u32 == value * 2 + 1) by (bit_vector)
            requires
                value <= 0x11,
        {}
    }
    (value << 1u32) | 1u32
}

/// What every test provides to the harness: a body to run. The
/// harness announces the test's name and reports its outcome around
/// this call.
pub trait Testable {
    fn run(&self);
}

} // verus!
