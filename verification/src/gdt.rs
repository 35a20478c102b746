use vstd::prelude::*;

verus! {

/// Index of the stack that the double fault handler runs on.
pub const DOUBLE_FAULT_IST_INDEX: u16 = 0;

/// The selectors of the segments of the kernel and of user code, and of the
/// task state segment.
#[derive(Clone, Copy, Debug, PartialEq, Eq, Structural)]
pub struct Selectors {
    pub kcode: u16,
    pub kdata: u16,
    pub ucode: u16,
    pub udata: u16,
    pub tss_selector: u16,
}

/// The value of the register that gives the fast system call its segments:
/// the user code selector with the user privilege level in its two low bits
/// from bit 48 on, and the kernel code selector from bit 32 on.
pub open spec fn star_value(s: Selectors) -> u64 {
    ((s.ucode as u64 | 3) << 48) | ((s.kcode as u64) << 32)
}

/// What the processor is given to enable the fast system call path.
#[derive(Clone, Copy, Debug, PartialEq, Eq, Structural)]
pub struct SyscallSetup {
    /// The segments of the call and of the return.
    pub star: u64,
    /// Where a call enters the kernel.
    pub lstar: u64,
    /// The flags that a call clears.
    pub sfmask: u64,
}

/// The registers that enable the fast system call path, for the given
/// selectors and the address of the entry routine; no flag is cleared on a call.
pub fn init(s: &Selectors, entry: u64) -> (r: SyscallSetup)
    ensures
        r.star == star_value(*s),
        r.lstar == entry,
        r.sfmask == 0,
{
    let ucs: u64 = s.ucode as u64 | 3;
    let kcs: u64 = s.kcode as u64;
    SyscallSetup { star: (ucs << 48) | (kcs << 32), lstar: entry, sfmask: 0 }
}

} // verus!
