use vstd::prelude::*;

pub mod keyboard;
pub mod memory;
pub mod page_table;
pub mod pic;
pub mod terminal;
pub mod vga_buffer;

verus! {

/// The codes the kernel leaves QEMU with through its exit device.
#[derive(Debug, Clone, Copy, PartialEq, Eq, Structural)]
pub enum QemuExitCode {
    Success,
    Failed,
}

impl QemuExitCode {
    /// The value written to the exit device: 0x10 for success, 0x11 for
    /// failure.
    pub fn code(self) -> (r: u32)
        ensures
            r == (match self {
                QemuExitCode::Success => 0x10u32,
                QemuExitCode::Failed => 0x11u32,
            }),
    {
        match self {
            QemuExitCode::Success => 0x10,
            QemuExitCode::Failed => 0x11,
        }
    }
}

/// The I/O port of QEMU's exit device.
pub const QEMU_EXIT_PORT: u16 = 0xf4;

/// Runs every test, one after another in order, and returns the exit code
/// for QEMU: a failing test panics and never comes back, so reaching the end
/// means that every test ran to completion, and the code is success.
pub fn test_runner<F: Fn()>(tests: &[F]) -> (code: QemuExitCode)
    requires
        forall|i: int| 0 <= i < tests@.len() ==> call_requires(tests@[i], ()),
    ensures
        forall|j: int| 0 <= j < tests@.len() ==> call_ensures(tests@[j], (), ()),
        code == QemuExitCode::Success,
{
    for i in 0..tests.len()
        invariant
            forall|i: int| 0 <= i < tests@.len() ==> call_requires(tests@[i], ()),
            forall|j: int| 0 <= j < i ==> call_ensures(tests@[j], (), ()),
    {
        let test = &tests[i];
        test();
    }
    QemuExitCode::Success
}

} // verus!
