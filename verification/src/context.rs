use vstd::prelude::*;

verus! {

/// The register state that is needed to resume a task: the callee-preserved
/// general registers, the stack pointer, the instruction pointer and the flags.
#[derive(Clone, Copy, Debug, PartialEq, Eq, Structural)]
pub struct Context {
    pub r15: u64,
    pub r14: u64,
    pub r13: u64,
    pub r12: u64,
    pub rbx: u64,
    pub rbp: u64,
    pub rsp: u64,
    pub rip: u64,
    pub rflags: u64,
}

impl Context {
    /// The context with every register zero.
    pub fn zero() -> (c: Self)
        ensures
            c == (Context { r15: 0, r14: 0, r13: 0, r12: 0, rbx: 0, rbp: 0, rsp: 0, rip: 0, rflags: 0 }),
    {
        Context { r15: 0, r14: 0, r13: 0, r12: 0, rbx: 0, rbp: 0, rsp: 0, rip: 0, rflags: 0 }
    }
}

/// Suspends the running task and resumes another: the live register state is
/// captured in `save_into`, and the state held in `load_from` becomes the live one, so
/// that execution goes on at its instruction pointer.
pub fn switch(cpu: &mut Context, save_into: &mut Context, load_from: &Context)
    ensures
        *final(save_into) == *old(cpu),
        *final(cpu) == *load_from,
{
    *save_into = *cpu;
    *cpu = *load_from;
}

} // verus!
