use crate::console::{Console, ConsoleView};
use crate::fs::memfs::MemFs;
use crate::fs::{initial_tree, Assets};
use crate::heap::{Bump, BumpView};
use crate::mm::{prefix, usable_frames, Memory, MemoryRegion, SpaceView};
use crate::pit::{Pit, PitView};
use crate::scheduler::{heap_after_stack, stack_for, SchedView, Scheduler, TICKS_PER_SECOND};
use crate::task::{initial_context, stored_name, State, TaskView, DEFAULT_PRIORITY};
use crate::tty::Tty;
use vstd::prelude::*;

verus! {

/// The addresses of the routines that tasks start in.
#[derive(Clone, Copy, Debug, PartialEq, Eq, Structural)]
pub struct Entries {
    pub idle: u64,
    pub shell: u64,
    pub kthread: u64,
    pub user_trampoline: u64,
}

/// Everything the kernel keeps between interrupts, made once at boot and
/// handed to every component that needs a part of it.
pub struct Kernel {
    pub heap: Bump,
    pub pit: Pit,
    pub sched: Scheduler,
    pub mem: Memory,
    pub fs: Option<MemFs>,
    pub console: Console,
    pub tty: Tty,
    pub entries: Entries,
}

impl Kernel {
    /// Every part is consistent, and the timer ticks.
    pub open spec fn wf(&self) -> bool {
        &&& self.heap@.wf()
        &&& self.pit@.hz > 0
        &&& self.sched@.wf()
        &&& self.mem.wf()
        &&& self.fs is Some ==> self.fs->0.wf()
    }
}

/// The heap that boot starts from: the range of `len` bytes at `start`.
pub open spec fn boot_heap(start: usize, len: usize) -> BumpView {
    BumpView {
        start,
        next: start,
        end: if start + len <= usize::MAX { (start + len) as usize } else { usize::MAX },
        inited: true,
    }
}

/// The task that boot makes for `entry`, with a stack from `heap`.
pub open spec fn boot_task(pid: u64, name: Seq<char>, entry: u64, heap: BumpView, root: u64, state: State) -> TaskView {
    TaskView {
        pid,
        name: stored_name(name),
        ctx: initial_context(entry, stack_for(heap)),
        stack_ptr: stack_for(heap),
        cr3: root,
        user: None,
        state,
        priority: DEFAULT_PRIORITY,
    }
}

/// Boots the kernel, in this order: the heap over the given range; the timer
/// at 100 ticks a second; the scheduler with the idle task running; the
/// shell task, ready; the frame allocator and the boot address space; the
/// file system. The console and the terminal start empty.
pub fn boot(
    heap_start: usize,
    heap_len: usize,
    entries: Entries,
    regions: &Vec<MemoryRegion>,
    boot_root: u64,
    kernel_entries: Vec<u64>,
    assets: &Assets,
) -> (k: Kernel)
    requires
        kernel_entries@.len() == 256,
    ensures
        k.wf(),
        k.entries == entries,
        k.heap@ == heap_after_stack(heap_after_stack(boot_heap(heap_start, heap_len))),
        k.pit@ == (PitView { ticks: 0, hz: 100 }),
        k.sched@ == (SchedView {
            tasks: seq![
                boot_task(1, "idle"@, entries.idle, boot_heap(heap_start, heap_len), boot_root, State::Running),
                boot_task(
                    2,
                    "shell"@,
                    entries.shell,
                    heap_after_stack(boot_heap(heap_start, heap_len)),
                    boot_root,
                    State::Ready,
                ),
            ],
            ready: seq![1usize],
            current: Some(0usize),
            next_pid: 3,
        }),
        k.sched@.pids_fresh(),
        k.mem@.kernel_shared(),
        k.mem@.frames == prefix(usable_frames(regions@), 4096),
        k.mem@.cursor == 0,
        k.mem@.active == boot_root,
        k.mem@.spaces == seq![(SpaceView { root: boot_root, kernel: kernel_entries@, user: Seq::empty() })],
        k.fs is Some && k.fs->0@ == initial_tree(*assets),
        k.console@ == (ConsoleView { input: Seq::empty(), output: Seq::empty() }),
        k.tty@ == Seq::<char>::empty(),
{
    let mut heap = Bump::new();
    crate::heap::init(&mut heap, heap_start, heap_len);
    let (pit, _setup) = crate::pit::init(TICKS_PER_SECOND as u32);
    let mut sched = crate::scheduler::init(&mut heap, entries.idle, boot_root);
    let _shell = crate::scheduler::spawn_kernel(&mut sched, &mut heap, "shell", entries.shell, boot_root);
    let mem = crate::mm::init(regions, boot_root, kernel_entries);
    let fs = crate::fs::init(assets);
    let k = Kernel { heap, pit, sched, mem, fs, console: Console::new(), tty: Tty::new(), entries };
    proof {
        assert(k.sched@.tasks =~= seq![
            boot_task(1, "idle"@, entries.idle, boot_heap(heap_start, heap_len), boot_root, State::Running),
            boot_task(2, "shell"@, entries.shell, heap_after_stack(boot_heap(heap_start, heap_len)), boot_root, State::Ready),
        ]);
        assert(k.sched@.ready =~= seq![1usize]);
    }
    k
}

} // verus!
