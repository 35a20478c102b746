use crate::console::{printed, ConsoleView};
use crate::elfloader::{
    entry_of, first_segments, image_ok, load_all, load_segments, map_into_cr3, parse_elf, partly_loaded, ph_count, segments_fit,
};
use crate::fs::file_of;
use crate::kernel::Kernel;
use crate::mm::{
    alloc_user_space, first_space, map_user_stack, new_mappings, region_fits, with_new_space, zero_pages, MemoryView, SpaceView,
};
use crate::pit::uptime;
use crate::scheduler::{heap_after_stack, stack_for, wake_deadline, with_state, SchedView};
use crate::task::{State, TaskView, UserCtx};
use crate::text::text_of;
use vstd::prelude::*;
use vstd::string::StringSliceAdditionalSpecFns;
use vstd::utf8::{decode_utf8, valid_utf8};

verus! {

/// Number of the call that writes to a file descriptor.
pub const SYS_WRITE: u64 = 0;

/// Number of the call that puts the caller to sleep.
pub const SYS_SLEEP: u64 = 1;

/// Number of the call that ends the caller.
pub const SYS_EXIT: u64 = 2;

/// Number of the call that starts a program from a file.
pub const SYS_SPAWN: u64 = 3;

/// What a call returns when it fails.
pub const FAILURE: u64 = u64::MAX;

/// Top of the stack of every user process.
pub const USER_STACK_TOP: u64 = 0x0000_7fff_ffff_f000;

/// Number of pages of the stack of every user process.
pub const USER_STACK_PAGES: usize = 8;

/// Flags that a process enters user mode with: interrupts enabled.
pub const USER_RFLAGS: u64 = 0x202;

/// Whole seconds since boot.
pub fn sys_uptime_secs(k: &Kernel) -> (secs: u64)
    requires
        k.wf(),
    ensures
        secs == uptime(k.pit@),
{
    crate::pit::uptime_secs(&k.pit)
}

/// The user memory that a call reads: its address and its length in bytes,
/// taken from the call's arguments; `None` for a call that reads none.
pub fn syscall_buffer(nr: u64, a1: u64, a2: u64, a3: u64) -> (r: Option<(u64, u64)>)
    ensures
        r == if nr == SYS_WRITE {
            Some((a2, a3))
        } else if nr == SYS_SPAWN {
            Some((a1, a2))
        } else {
            None
        },
{
    if nr == SYS_WRITE {
        Some((a2, a3))
    } else if nr == SYS_SPAWN {
        Some((a1, a2))
    } else {
        None
    }
}

/// Writes to a file descriptor: descriptor 1 is the console, which prints
/// the bytes as one line where they are well-formed text; the byte count is
/// returned. Any other descriptor, or bytes that are no text, give -1 and
/// change nothing.
pub fn sys_write(k: &mut Kernel, fd: u64, buf: &[u8]) -> (r: isize)
    requires
        old(k).wf(),
        buf@.len() <= isize::MAX,
    ensures
        final(k).wf(),
        fd == 1 && valid_utf8(buf@) ==> r == buf@.len() && *final(k) == (Kernel { console: final(k).console, ..*old(k) })
            && final(k).console@ == (ConsoleView {
            output: printed(old(k).console@.output, decode_utf8(buf@)),
            ..old(k).console@
        }),
        !(fd == 1 && valid_utf8(buf@)) ==> r == -1 && *final(k) == *old(k),
{
    if fd == 1 {
        match text_of(buf) {
            Some(text) => {
                proof {
                    vstd::utf8::encode_utf8_decode_utf8(text@);
                }
                crate::console::println(&mut k.console, text);
                return buf.len() as isize;
            },
            None => {},
        }
    }
    -1
}

/// The interrupt path into the kernel. It is kept for later use and does nothing.
pub fn handle() {
}

/// Starts a kernel task named `name` that runs the demonstration thread in
/// the active address space, and returns its identifier.
pub fn spawn(k: &mut Kernel, name: &str) -> (pid: u64)
    requires
        old(k).wf(),
    ensures
        final(k).wf(),
        pid == old(k).sched@.next_pid,
        final(k).sched@ == old(k).sched@.spawned(name@, old(k).entries.kthread, stack_for(old(k).heap@), old(k).mem@.active),
        final(k).heap@ == heap_after_stack(old(k).heap@),
        *final(k) == (Kernel { sched: final(k).sched, heap: final(k).heap, ..*old(k) }),
{
    let root = k.mem.active_root();
    crate::scheduler::spawn_kernel(&mut k.sched, &mut k.heap, name, k.entries.kthread, root)
}

/// Ends the calling task. Tasks are never taken out of the table: nothing changes.
pub fn exit(k: &mut Kernel)
    ensures
        *final(k) == *old(k),
{
}

/// Puts the calling task to sleep for `ticks` ticks from now, counted in
/// whole seconds; it keeps the processor until the next tick.
pub fn sleep_ticks(k: &mut Kernel, ticks: u64)
    requires
        old(k).wf(),
    ensures
        final(k).wf(),
        *final(k) == (Kernel { sched: final(k).sched, ..*old(k) }),
        final(k).sched@ == (SchedView {
            tasks: old(k).sched@.tasks.update(
                old(k).sched@.current->0 as int,
                with_state(
                    old(k).sched@.tasks[old(k).sched@.current->0 as int],
                    State::Sleeping(wake_deadline(uptime(old(k).pit@), ticks)),
                ),
            ),
            ..old(k).sched@
        }),
{
    let now = crate::pit::uptime_secs(&k.pit);
    crate::scheduler::sleep_current(&mut k.sched, now, ticks);
}

/// The frame that the processor is given to enter user mode: the selectors
/// of the user segments with the user privilege level in their low bits,
/// the flags, and where to run and on which stack.
#[derive(Clone, Copy, Debug, PartialEq, Eq, Structural)]
pub struct UserFrame {
    pub ss: u64,
    pub rsp: u64,
    pub rflags: u64,
    pub cs: u64,
    pub rip: u64,
}

/// Builds the frame for the first entry into user mode at `rip` on the stack
/// `rsp`, from the selectors of the user code and data segments. The machine
/// leaves the kernel with it and comes back only by a trap or a call.
pub fn enter_user(rip: u64, rsp: u64, user_code: u16, user_data: u16) -> (frame: UserFrame)
    ensures
        frame.rip == rip,
        frame.rsp == rsp,
        frame.rflags == USER_RFLAGS,
        frame.cs == user_code as u64 | 3,
        frame.ss == user_data as u64 | 3,
{
    UserFrame { ss: user_data as u64 | 3, rsp, rflags: USER_RFLAGS, cs: user_code as u64 | 3, rip }
}

/// The address where the stack of a user process begins.
pub open spec fn user_stack_base() -> u64 {
    (USER_STACK_TOP - USER_STACK_PAGES * 4096) as u64
}

/// The segments of the executable `data`.
pub open spec fn segments_of(data: Seq<u8>) -> Seq<(Seq<u8>, u64)> {
    first_segments(load_segments(data, ph_count(data) as nat))
}

/// The memory after the stack of a user process was mapped into the space at
/// index `s`: eight fresh frames of zeros, mapped writable below the stack's top.
pub open spec fn with_user_stack(m: MemoryView, s: int) -> MemoryView {
    MemoryView {
        cursor: m.cursor + USER_STACK_PAGES as nat,
        contents: m.contents + zero_pages(USER_STACK_PAGES as nat),
        spaces: m.spaces.update(
            s,
            SpaceView {
                root: m.spaces[s].root,
                kernel: m.spaces[s].kernel,
                user: m.spaces[s].user + new_mappings(
                    m.frames,
                    m.cursor as int,
                    user_stack_base(),
                    USER_STACK_PAGES as nat,
                    true,
                ),
            },
        ),
        ..m
    }
}

/// True when the segments and the stack of a process can be mapped into the
/// space at index `s`, one after another.
pub open spec fn process_fits(m: MemoryView, s: int, segs: Seq<(Seq<u8>, u64)>) -> bool {
    &&& segments_fit(m, s, segs)
    &&& region_fits(load_all(m, s, segs), s, user_stack_base(), (USER_STACK_PAGES * 4096) as nat)
}

/// The task table after a user process was appended: a new task as
/// `spawned` makes it, which then got the address space `root` and the
/// pending entry at `entry` on the user stack.
pub open spec fn user_spawned(s: SchedView, trampoline: u64, stack_ptr: u64, active: u64, entry: u64, root: u64) -> SchedView {
    let grown = s.spawned("user"@, trampoline, stack_ptr, active);
    let slot = s.tasks.len() as int;
    SchedView {
        tasks: grown.tasks.update(
            slot,
            TaskView { user: Some(UserCtx { rip: entry, rsp: USER_STACK_TOP }), cr3: root, ..grown.tasks[slot] },
        ),
        ..grown
    }
}

/// What starting the program in the file at `path` does to the kernel, and
/// what it returns. Only the task table, the heap and the memory can change.
/// It fails, with the memory as it was, where the path names no file, the
/// file is no executable, or no frame is left for the root of a new address
/// space; after that it succeeds exactly where the segments and the stack
/// fit into the new space. With success the memory holds the loaded program
/// and its stack, and the task table a new user task; without, the task
/// table and the heap are as they were.
pub open spec fn process_started(before: Kernel, after: Kernel, path: Seq<char>, r: Result<u64, ()>) -> bool {
    &&& after == (Kernel { sched: after.sched, heap: after.heap, mem: after.mem, ..before })
    &&& before.mem@.kernel_shared() ==> after.mem@.kernel_shared()
    &&& r is Err ==> after.sched@ == before.sched@ && after.heap@ == before.heap@
    &&& file_of(before.fs, path) is None || !image_ok(file_of(before.fs, path)->0) || before.mem@.cursor
        >= before.mem@.frames.len() ==> r is Err && after.mem@ == before.mem@
    &&& r is Ok ==> {
        &&& file_of(before.fs, path) is Some
        &&& r == Ok::<u64, ()>(before.sched@.next_pid)
        &&& after.heap@ == heap_after_stack(before.heap@)
        &&& after.sched@ == user_spawned(
            before.sched@,
            before.entries.user_trampoline,
            stack_for(before.heap@),
            before.mem@.active,
            entry_of(file_of(before.fs, path)->0) as u64,
            before.mem@.frames[before.mem@.cursor as int],
        )
    }
    &&& file_of(before.fs, path) is Some && image_ok(file_of(before.fs, path)->0) && before.mem@.cursor
        < before.mem@.frames.len() ==> ({
        let data = file_of(before.fs, path)->0;
        let root = before.mem@.frames[before.mem@.cursor as int];
        let made = with_new_space(before.mem@);
        forall|s: int| #[trigger] first_space(made.spaces, root, s) ==> {
            &&& r is Ok <==> process_fits(made, s, segments_of(data))
            &&& partly_loaded(made, after.mem@, s)
            &&& r is Ok ==> after.mem@ == with_user_stack(load_all(made, s, segments_of(data)), s)
        }
    })
}

/// Starts the program in the file at `path` as a user process: reads the
/// file, parses it, creates an address space, loads the segments and maps
/// the stack there, and appends a task that enters user mode at the
/// program's entry on that stack. Returns the task's identifier. Fails where
/// the path names no file, the file is no executable, or frames run out; the
/// task table is then as it was, and a failure before any frame was taken
/// leaves the memory as it was too.
pub fn spawn_user_elf(k: &mut Kernel, path: &str) -> (r: Result<u64, ()>)
    requires
        old(k).wf(),
    ensures
        final(k).wf(),
        process_started(*old(k), *final(k), path@, r),
{
    let active = k.mem.active_root();
    let bytes = match crate::fs::read(&k.fs, path) {
        Ok(b) => b,
        Err(_) => {
            return Err(());
        },
    };
    let img = match parse_elf(bytes.as_slice()) {
        Some(i) => i,
        None => {
            return Err(());
        },
    };
    let cr3 = match alloc_user_space(&mut k.mem) {
        Some(root) => root,
        None => {
            return Err(());
        },
    };
    let ghost made = k.mem@;
    let ghost data = bytes@;
    let ghost segs = segments_of(data);
    proof {
        assert(made == with_new_space(old(k).mem@));
        assert(cr3 == old(k).mem@.frames[old(k).mem@.cursor as int]);
        assert(img@.segments == segs);
        assert(data == file_of(old(k).fs, path@)->0);
    }
    if !map_into_cr3(&mut k.mem, cr3, &img) {
        proof {
            assert forall|s: int| #[trigger] first_space(made.spaces, cr3, s) implies partly_loaded(made, k.mem@, s) && !process_fits(
                made,
                s,
                segs,
            ) by {}
        }
        return Err(());
    }
    let ghost loaded = k.mem@;
    proof {
        assert forall|s: int| #[trigger] first_space(made.spaces, cr3, s) implies first_space(loaded.spaces, cr3, s) && loaded == load_all(
            made,
            s,
            segs,
        ) && segments_fit(made, s, segs) by {
            assert(partly_loaded(made, loaded, s));
            assert forall|j: int| 0 <= j < s implies (#[trigger] loaded.spaces[j]).root != cr3 by {
                assert(loaded.spaces[j] == made.spaces[j]);
            }
        }
    }
    match map_user_stack(&mut k.mem, cr3, USER_STACK_TOP, USER_STACK_PAGES) {
        Some(_) => {},
        None => {
            proof {
                assert forall|s: int| #[trigger] first_space(made.spaces, cr3, s) implies partly_loaded(made, k.mem@, s) && !process_fits(
                    made,
                    s,
                    segs,
                ) by {
                    assert(first_space(loaded.spaces, cr3, s));
                    lemma_stack_extends(loaded, k.mem@, s);
                    lemma_partly_trans(made, loaded, k.mem@, s);
                }
            }
            return Err(());
        },
    }
    proof {
        assert forall|s: int| #[trigger] first_space(made.spaces, cr3, s) implies partly_loaded(made, k.mem@, s) && process_fits(made, s, segs)
            && k.mem@ == with_user_stack(loaded, s) by {
            assert(first_space(loaded.spaces, cr3, s));
            lemma_stack_extends(loaded, k.mem@, s);
            lemma_partly_trans(made, loaded, k.mem@, s);
            lemma_stack_mapped(loaded, k.mem@, s);
        }
    }
    let ghost mapped = k.mem@;
    let slot = k.sched.task_count();
    let pid = crate::scheduler::spawn_kernel(&mut k.sched, &mut k.heap, "user", k.entries.user_trampoline, active);
    k.sched.make_user(slot, UserCtx { rip: img.entry, rsp: USER_STACK_TOP }, cr3);
    proof {
        assert(k.mem@ == mapped);
        assert(img.entry == entry_of(data) as u64);
        assert forall|s: int| #[trigger] first_space(made.spaces, cr3, s) implies process_fits(made, s, segs) && partly_loaded(made, k.mem@, s)
            && k.mem@ == with_user_stack(load_all(made, s, segs), s) by {
            assert(loaded == load_all(made, s, segs));
            assert(mapped == with_user_stack(loaded, s));
        }
        assert(made == with_new_space(old(k).mem@));
        assert(segs == segments_of(file_of(old(k).fs, path@)->0));
        assert(cr3 == old(k).mem@.frames[old(k).mem@.cursor as int]);
    }
    Ok(pid)
}

/// Mapping the user stack keeps the memory's old part.
proof fn lemma_stack_extends(before: MemoryView, after: MemoryView, s: int)
    requires
        0 <= s < before.spaces.len(),
        crate::mm::region_mapped(before, after, s, user_stack_base(), (USER_STACK_PAGES * 4096) as nat, true),
    ensures
        partly_loaded(before, after, s),
{
    assert(after.spaces[s].user.take(before.spaces[s].user.len() as int) =~= before.spaces[s].user);
    assert(after.contents.take(before.contents.len() as int) =~= before.contents);
}

/// `partly_loaded` composes.
proof fn lemma_partly_trans(a: MemoryView, b: MemoryView, c: MemoryView, s: int)
    requires
        0 <= s < a.spaces.len(),
        partly_loaded(a, b, s),
        partly_loaded(b, c, s),
    ensures
        partly_loaded(a, c, s),
{
    assert(c.contents.take(a.contents.len() as int) =~= b.contents.take(a.contents.len() as int));
    assert(c.spaces[s].user.take(a.spaces[s].user.len() as int) =~= b.spaces[s].user.take(a.spaces[s].user.len() as int));
    assert forall|i: int| 0 <= i < a.spaces.len() && i != s implies #[trigger] c.spaces[i] == a.spaces[i] by {
        assert(b.spaces[i] == a.spaces[i]);
    }
}

/// Where the whole stack fits, what the mapping leaves is `with_user_stack`.
proof fn lemma_stack_mapped(before: MemoryView, after: MemoryView, s: int)
    requires
        0 <= s < before.spaces.len(),
        before.cursor <= before.frames.len(),
        crate::mm::region_mapped(before, after, s, user_stack_base(), (USER_STACK_PAGES * 4096) as nat, true),
        region_fits(before, s, user_stack_base(), (USER_STACK_PAGES * 4096) as nat),
    ensures
        after == with_user_stack(before, s),
{
    assert(crate::mm::pages_for((USER_STACK_PAGES * 4096) as nat) == USER_STACK_PAGES);
}

/// Carries out a call from user code. `buf` holds the user memory that
/// `syscall_buffer` names for the call. Call 0 writes the buffer to the
/// descriptor `a1`; call 1 puts the caller to sleep for `a1` ticks; call 2
/// does nothing; call 3 starts the program whose path the buffer holds and
/// returns its identifier, or zero where that failed. A buffer that is no
/// text for call 3, and every other number, give the failure value.
pub fn handle_syscall(k: &mut Kernel, nr: u64, a1: u64, a2: u64, a3: u64, a4: u64, a5: u64, a6: u64, buf: &[u8]) -> (r: u64)
    requires
        old(k).wf(),
        buf@.len() <= isize::MAX,
    ensures
        final(k).wf(),
        nr == SYS_WRITE ==> {
            &&& fd_is_console(a1) && valid_utf8(buf@) ==> r == buf@.len() && final(k).console@ == (ConsoleView {
                output: printed(old(k).console@.output, decode_utf8(buf@)),
                ..old(k).console@
            }) && *final(k) == (Kernel { console: final(k).console, ..*old(k) })
            &&& !(fd_is_console(a1) && valid_utf8(buf@)) ==> r == FAILURE && *final(k) == *old(k)
        },
        nr == SYS_SLEEP ==> r == 0 && *final(k) == (Kernel { sched: final(k).sched, ..*old(k) }) && final(k).sched@ == (SchedView {
            tasks: old(k).sched@.tasks.update(
                old(k).sched@.current->0 as int,
                with_state(
                    old(k).sched@.tasks[old(k).sched@.current->0 as int],
                    State::Sleeping(wake_deadline(uptime(old(k).pit@), a1)),
                ),
            ),
            ..old(k).sched@
        }),
        nr == SYS_EXIT ==> r == 0 && *final(k) == *old(k),
        nr == SYS_SPAWN ==> {
            &&& !valid_utf8(buf@) ==> r == FAILURE && *final(k) == *old(k)
            &&& valid_utf8(buf@) ==> exists|res: Result<u64, ()>|
                #[trigger] process_started(*old(k), *final(k), decode_utf8(buf@), res) && r == (match res {
                    Ok(pid) => pid,
                    Err(_) => 0,
                })
        },
        nr > SYS_SPAWN ==> r == FAILURE && *final(k) == *old(k),
{
    if nr == SYS_WRITE {
        let written = sys_write(k, a1, buf);
        if written < 0 {
            FAILURE
        } else {
            written as u64
        }
    } else if nr == SYS_SLEEP {
        sleep_ticks(k, a1);
        0
    } else if nr == SYS_EXIT {
        0
    } else if nr == SYS_SPAWN {
        match text_of(buf) {
            Some(path) => {
                proof {
                    vstd::utf8::encode_utf8_decode_utf8(path@);
                }
                let res = spawn_user_elf(k, path);
                proof {
                    assert(process_started(*old(k), *k, decode_utf8(buf@), res));
                }
                match res {
                    Ok(pid) => pid,
                    Err(_) => 0,
                }
            },
            None => FAILURE,
        }
    } else {
        FAILURE
    }
}

/// True for the descriptor of the console.
pub open spec fn fd_is_console(fd: u64) -> bool {
    fd == 1
}

} // verus!
