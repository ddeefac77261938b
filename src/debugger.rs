use vstd::prelude::*;
use crate::error::UnifyError;

verus! {

/// The operations a process-debugging backend offers.
pub trait DebuggerBackend {
    /// Attach to a running process.
    fn attach(&mut self, pid: u32) -> Result<(), UnifyError>;

    /// Spawn a new process and attach to it.
    fn spawn(&mut self, path: &str) -> Result<(), UnifyError>;

    /// Set a breakpoint at an address.
    fn set_breakpoint(&mut self, address: u64) -> Result<(), UnifyError>;

    /// Every breakpoint set.
    fn list_breakpoints(&self) -> Vec<u64>;

    /// Execute one instruction.
    fn step(&mut self) -> Result<(), UnifyError>;

    /// Resume execution.
    fn continue_execution(&mut self) -> Result<(), UnifyError>;

    /// Read the general-purpose registers.
    fn read_registers(&self) -> Result<Registers, UnifyError>;

    /// Read `size` bytes of memory at `address`.
    fn read_memory(&self, address: u64, size: usize) -> Result<Vec<u8>, UnifyError>;
}

/// The x86-64 general-purpose registers.
#[derive(Debug, Default, Clone, Copy)]
pub struct Registers {
    pub rip: u64,
    pub rax: u64,
    pub rbx: u64,
    pub rcx: u64,
    pub rdx: u64,
    pub rsi: u64,
    pub rdi: u64,
    pub rsp: u64,
    pub rbp: u64,
}

/// A debugging session over one backend.
pub struct Debugger<B: DebuggerBackend> {
    backend: B,
}

impl<B: DebuggerBackend> Debugger<B> {
    /// The backend the session drives.
    pub closed spec fn backend_spec(&self) -> B {
        self.backend
    }

    pub fn new(backend: B) -> (r: Self)
        ensures
            r.backend_spec() == backend,
    {
        Debugger { backend }
    }
}

} // verus!
