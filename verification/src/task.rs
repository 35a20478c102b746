use crate::context::Context;
use vstd::prelude::*;
use vstd::string::StringSliceAdditionalSpecFns;
use vstd::utf8::encode_utf8;

verus! {

/// Size in bytes of the stack that every kernel task gets.
pub const STACK_SIZE: u64 = 16384;

/// Priority that a new task starts with. Round robin does not read it.
pub const DEFAULT_PRIORITY: u8 = 10;

/// `heapless::String`, a text of at most `N` bytes that lies in place. It is
/// carried through as it is; nothing is known of its inside.
#[verifier::external_type_specification]
#[verifier::external_body]
pub struct ExHeaplessString<const N: usize>(heapless::String<N>);

/// The characters that a task name holds.
pub uninterp spec fn name_text(s: heapless::String<32>) -> Seq<char>;

/// `heapless::String::new`: a name without characters.
#[verifier::external_body]
fn name_new() -> (s: heapless::String<32>)
    ensures
        name_text(s) == Seq::<char>::empty(),
{
    heapless::String::new()
}

/// `heapless::String::push_str`: appends `text` where the name then takes no
/// more than 32 bytes of UTF-8, and otherwise leaves the name as it was.
#[verifier::external_body]
fn name_push_str(s: &mut heapless::String<32>, text: &str) -> (stored: bool)
    ensures
        stored == (encode_utf8(name_text(*old(s))).len() + text.spec_bytes().len() <= 32),
        stored ==> name_text(*final(s)) == name_text(*old(s)) + text@,
        !stored ==> name_text(*final(s)) == name_text(*old(s)),
{
    s.push_str(text).is_ok()
}

/// `heapless::String::as_str`: the characters of the name.
#[verifier::external_body]
fn name_as_str(s: &heapless::String<32>) -> (text: &str)
    ensures
        text@ == name_text(*s),
{
    s.as_str()
}

/// Where a task stands in its life.
#[derive(Clone, Copy, Debug, PartialEq, Eq, Structural)]
pub enum State {
    Ready,
    Running,
    Sleeping(u64),
    Zombie,
}

/// The one-shot record of a first entry into user mode: the instruction
/// pointer and the stack pointer to enter with.
#[derive(Clone, Copy, Debug, PartialEq, Eq, Structural)]
pub struct UserCtx {
    pub rip: u64,
    pub rsp: u64,
}

/// One task of the table.
pub struct Task {
    pub pid: u64,
    pub name: heapless::String<32>,
    pub ctx: Context,
    pub stack_ptr: u64,
    pub cr3: u64,
    pub user: Option<UserCtx>,
    pub state: State,
    pub priority: u8,
}

/// What a task holds, as plain values.
pub struct TaskView {
    pub pid: u64,
    pub name: Seq<char>,
    pub ctx: Context,
    pub stack_ptr: u64,
    pub cr3: u64,
    pub user: Option<UserCtx>,
    pub state: State,
    pub priority: u8,
}

impl View for Task {
    type V = TaskView;

    open spec fn view(&self) -> TaskView {
        TaskView {
            pid: self.pid,
            name: name_text(self.name),
            ctx: self.ctx,
            stack_ptr: self.stack_ptr,
            cr3: self.cr3,
            user: self.user,
            state: self.state,
            priority: self.priority,
        }
    }
}

/// The name a task gets: `name` where it fits in 32 bytes, else the empty name.
pub open spec fn stored_name(name: Seq<char>) -> Seq<char> {
    if encode_utf8(name).len() <= 32 {
        name
    } else {
        Seq::empty()
    }
}

/// The context a new kernel task starts from: it runs `entry` on an empty
/// stack whose top lies `STACK_SIZE` bytes above `stack_ptr`.
pub open spec fn initial_context(entry: u64, stack_ptr: u64) -> Context {
    Context {
        r15: 0,
        r14: 0,
        r13: 0,
        r12: 0,
        rbx: 0,
        rbp: 0,
        rsp: (stack_ptr + STACK_SIZE) as u64,
        rip: entry,
        rflags: 0,
    }
}

impl Task {
    /// A new kernel task: ready, with the given stack and address space, and
    /// without a pending entry into user mode.
    pub fn new_kernel(pid: u64, name: &str, entry: u64, stack_ptr: u64, cr3: u64) -> (t: Self)
        requires
            stack_ptr + STACK_SIZE <= u64::MAX,
        ensures
            t@ == (TaskView {
                pid,
                name: stored_name(name@),
                ctx: initial_context(entry, stack_ptr),
                stack_ptr,
                cr3,
                user: None,
                state: State::Ready,
                priority: DEFAULT_PRIORITY,
            }),
    {
        let mut ctx = Context::zero();
        ctx.rsp = stack_ptr + STACK_SIZE;
        ctx.rip = entry;
        let mut n = name_new();
        proof {
            assert(encode_utf8(Seq::<char>::empty()).len() == 0);
        }
        let _stored = name_push_str(&mut n, name);
        proof {
            assert(Seq::<char>::empty() + name@ =~= name@);
        }
        Task { pid, name: n, ctx, stack_ptr, cr3, user: None, state: State::Ready, priority: DEFAULT_PRIORITY }
    }

    /// The task's display name.
    pub fn name(&self) -> (text: &str)
        ensures
            text@ == self@.name,
    {
        name_as_str(&self.name)
    }
}

/// Hands out the next identifier and moves the counter on by one; after the
/// greatest value the counter starts again at zero.
pub fn alloc_pid(next_pid: &mut u64) -> (pid: u64)
    ensures
        pid == *old(next_pid),
        *final(next_pid) == if *old(next_pid) < u64::MAX { (*old(next_pid) + 1) as u64 } else { 0u64 },
{
    let pid = *next_pid;
    if pid < u64::MAX {
        *next_pid = pid + 1;
    } else {
        *next_pid = 0;
    }
    pid
}

} // verus!
