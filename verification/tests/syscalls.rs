use waemom::fs::Assets;
use waemom::kernel::{boot, Entries, Kernel};
use waemom::mm::MemoryRegion;
use waemom::syscalls::{
    enter_user, exit, handle, handle_syscall, sleep_ticks, spawn, spawn_user_elf, sys_uptime_secs, sys_write, syscall_buffer,
    FAILURE, USER_STACK_TOP,
};
use waemom::task::{State, UserCtx};

fn program(data: &[u8], vaddr: u64, entry: u64) -> Vec<u8> {
    let mut f = vec![0u8; 64 + 56];
    f[0..4].copy_from_slice(&[0x7f, b'E', b'L', b'F']);
    f[4] = 2;
    f[24..32].copy_from_slice(&entry.to_le_bytes());
    f[32..40].copy_from_slice(&64u64.to_le_bytes());
    f[54..56].copy_from_slice(&56u16.to_le_bytes());
    f[56..58].copy_from_slice(&1u16.to_le_bytes());
    f[64..68].copy_from_slice(&1u32.to_le_bytes());
    f[72..80].copy_from_slice(&120u64.to_le_bytes());
    f[80..88].copy_from_slice(&vaddr.to_le_bytes());
    f[96..104].copy_from_slice(&(data.len() as u64).to_le_bytes());
    f.extend(data);
    f
}

fn kernel_with(frames: u64, hello: &[u8]) -> Kernel {
    let assets = Assets { hello, lock: b"[ui]\nfont_scale=2\n", index_html: b"<html/>", app_js: b"js", styles_css: b"css" };
    let entries = Entries { idle: 0x100, shell: 0x200, kthread: 0x300, user_trampoline: 0x400 };
    let regions = vec![MemoryRegion { start: 0x20_0000, end: 0x20_0000 + frames * 4096, usable: true }];
    boot(0x10_0000, 512 * 1024, entries, &regions, 0x1000, vec![5; 256], &assets)
}

fn kernel() -> Kernel {
    kernel_with(32, &program(b"code", 0x40_0000, 0x40_0000))
}

#[test]
fn boot_makes_the_idle_and_the_shell_task() {
    let k = kernel();
    assert_eq!(k.sched.task_count(), 2);
    assert_eq!(k.sched.current(), Some(0));
    assert_eq!(k.sched.state_of(0), Some(State::Running));
    assert_eq!(k.sched.state_of(1), Some(State::Ready));
    assert_eq!(k.sched.ready_queue(), vec![1]);
    assert_eq!(k.sched.task(0).unwrap().name(), "idle");
    assert_eq!(k.sched.task(1).unwrap().name(), "shell");
    assert_eq!(k.sched.task(1).unwrap().ctx.rip, 0x200);
    assert_eq!(k.sched.task(1).unwrap().cr3, 0x1000);
    assert_eq!(k.pit.hz(), 100);
    assert_eq!(k.pit.ticks(), 0);
    assert_eq!(k.mem.active_root(), 0x1000);
    assert_eq!(k.mem.frames_total(), 32);
    assert_eq!(k.console.output(), "");
    assert_eq!(k.heap.next(), 0x10_0000 + 2 * 16384);
    assert_eq!(waemom::fs::read(&k.fs, "/etc/motd").unwrap(), b"Welcome to waemom!\nEnjoy your stay.\n");
}

#[test]
fn writing_hi_to_the_console_returns_two() {
    let mut k = kernel();
    assert_eq!(handle_syscall(&mut k, 0, 1, 0x5000, 2, 0, 0, 0, b"hi"), 2);
    assert_eq!(k.console.output(), "hi\n");
    assert_eq!(sys_write(&mut k, 1, "wörld".as_bytes()), 6);
    assert_eq!(k.console.output(), "hi\nwörld\n");
    assert_eq!(k.sched.task_count(), 2);
}

#[test]
fn writing_to_another_descriptor_fails() {
    let mut k = kernel();
    assert_eq!(handle_syscall(&mut k, 0, 2, 0x5000, 2, 0, 0, 0, b"hi"), u64::MAX);
    assert_eq!(handle_syscall(&mut k, 0, 0, 0x5000, 2, 0, 0, 0, b"hi"), FAILURE);
    assert_eq!(sys_write(&mut k, 2, b"hi"), -1);
    assert_eq!(sys_write(&mut k, u64::MAX, b""), -1);
    assert_eq!(k.console.output(), "");
}

#[test]
fn writing_bytes_that_are_no_text_fails() {
    let mut k = kernel();
    assert_eq!(sys_write(&mut k, 1, &[b'a', 0xff, b'b']), -1);
    assert_eq!(handle_syscall(&mut k, 0, 1, 0, 1, 0, 0, 0, &[0x80]), FAILURE);
    assert_eq!(k.console.output(), "");
    assert_eq!(sys_write(&mut k, 1, b""), 0);
    assert_eq!(k.console.output(), "\n");
}

#[test]
fn a_line_that_does_not_fit_in_the_console_is_dropped() {
    let mut k = kernel();
    let long = vec![b'x'; 511];
    assert_eq!(sys_write(&mut k, 1, &long), 511);
    assert_eq!(k.console.output().len(), 512);
    assert_eq!(sys_write(&mut k, 1, b"y"), 1);
    assert_eq!(k.console.output().len(), 512);
    let mut k = kernel();
    assert_eq!(sys_write(&mut k, 1, &vec![b'x'; 512]), 512);
    assert_eq!(k.console.output(), "x".repeat(512));
    let mut k = kernel();
    assert_eq!(sys_write(&mut k, 1, &vec![b'x'; 513]), 513);
    assert_eq!(k.console.output(), "\n");
}

#[test]
fn the_sleep_call_sets_a_deadline_in_whole_seconds() {
    let mut k = kernel();
    for _ in 0..250 {
        waemom::pit::tick(&mut k.pit, &mut k.sched, 0x1000);
    }
    assert_eq!(sys_uptime_secs(&k), 2);
    let me = k.sched.current().unwrap();
    assert_eq!(handle_syscall(&mut k, 1, 300, 0, 0, 0, 0, 0, &[]), 0);
    assert_eq!(k.sched.state_of(me), Some(State::Sleeping(5)));
    assert_eq!(k.sched.current(), Some(me));
    sleep_ticks(&mut k, 99);
    assert_eq!(k.sched.state_of(me), Some(State::Sleeping(2)));
}

#[test]
fn exit_and_the_interrupt_path_do_nothing() {
    let mut k = kernel();
    assert_eq!(handle_syscall(&mut k, 2, 9, 9, 9, 9, 9, 9, b"x"), 0);
    exit(&mut k);
    handle();
    assert_eq!(k.sched.task_count(), 2);
    assert_eq!(k.sched.state_of(0), Some(State::Running));
    assert_eq!(k.console.output(), "");
}

#[test]
fn unknown_calls_fail() {
    let mut k = kernel();
    for nr in [4, 5, 100, u64::MAX] {
        assert_eq!(handle_syscall(&mut k, nr, 1, 2, 3, 4, 5, 6, b"hi"), u64::MAX);
    }
    assert_eq!(k.console.output(), "");
    assert_eq!(k.sched.task_count(), 2);
    assert_eq!(k.mem.frames_used(), 0);
}

#[test]
fn the_buffer_of_a_call_comes_from_its_arguments() {
    assert_eq!(syscall_buffer(0, 1, 0x5000, 2), Some((0x5000, 2)));
    assert_eq!(syscall_buffer(3, 0x6000, 9, 0), Some((0x6000, 9)));
    assert_eq!(syscall_buffer(1, 1, 2, 3), None);
    assert_eq!(syscall_buffer(2, 1, 2, 3), None);
    assert_eq!(syscall_buffer(7, 1, 2, 3), None);
}

#[test]
fn spawning_from_a_missing_file_changes_no_task() {
    let mut k = kernel();
    let queue = k.sched.ready_queue();
    assert_eq!(spawn_user_elf(&mut k, "/bin/nothing"), Err(()));
    assert_eq!(spawn_user_elf(&mut k, "/bin"), Err(()));
    assert_eq!(spawn_user_elf(&mut k, ""), Err(()));
    assert_eq!(handle_syscall(&mut k, 3, 0, 12, 0, 0, 0, 0, b"/bin/nothing"), 0);
    assert_eq!(k.sched.task_count(), 2);
    assert_eq!(k.sched.ready_queue(), queue);
    assert_eq!(k.sched.next_pid(), 3);
    assert_eq!(k.mem.frames_used(), 0);
    assert_eq!(k.mem.space_count(), 1);
    assert_eq!(k.heap.next(), 0x10_0000 + 2 * 16384);
}

#[test]
fn spawning_from_a_file_that_is_no_executable_fails() {
    let mut k = kernel();
    assert_eq!(spawn_user_elf(&mut k, "/etc/motd"), Err(()));
    assert_eq!(spawn_user_elf(&mut k, "/README.txt"), Err(()));
    assert_eq!(k.sched.task_count(), 2);
    assert_eq!(k.mem.frames_used(), 0);
    assert_eq!(handle_syscall(&mut k, 3, 0, 1, 0, 0, 0, 0, &[0xff]), u64::MAX);
}

#[test]
fn spawning_a_program_makes_a_user_task() {
    let mut k = kernel_with(32, &program(b"hello, user", 0x40_0000, 0x40_0004));
    assert_eq!(handle_syscall(&mut k, 3, 0x7000, 10, 0, 0, 0, 0, b"/bin/hello"), 3);
    assert_eq!(k.sched.task_count(), 3);
    assert_eq!(k.sched.ready_queue(), vec![1, 2]);
    let t = k.sched.task(2).unwrap();
    assert_eq!(t.pid, 3);
    assert_eq!(t.name(), "user");
    assert_eq!(t.state, State::Ready);
    assert_eq!(t.ctx.rip, 0x400);
    assert_eq!(t.cr3, 0x20_0000);
    assert_eq!(t.user, Some(UserCtx { rip: 0x40_0004, rsp: USER_STACK_TOP }));
    assert_eq!(k.mem.frames_used(), 1 + 1 + 8);
    let space = k.mem.space(0x20_0000).unwrap();
    assert_eq!(space.kernel, vec![5; 256]);
    assert_eq!(space.user.len(), 9);
    assert_eq!(space.user[0].page, 0x40_0000);
    assert_eq!(space.user[1].page, USER_STACK_TOP - 8 * 4096);
    assert_eq!(space.user[8].page, USER_STACK_TOP - 4096);
    assert_eq!(&k.mem.frame_bytes(1).unwrap()[..12], b"hello, user\0");
    assert_eq!(k.mem.active_root(), 0x1000);
    assert_eq!(spawn_user_elf(&mut k, "/bin/hello"), Ok(4));
}

#[test]
fn spawning_fails_without_frames_and_changes_no_task() {
    let mut k = kernel_with(0, &program(b"x", 0x40_0000, 0x40_0000));
    assert_eq!(spawn_user_elf(&mut k, "/bin/hello"), Err(()));
    assert_eq!(k.mem.space_count(), 1);
    let mut k = kernel_with(5, &program(b"x", 0x40_0000, 0x40_0000));
    assert_eq!(spawn_user_elf(&mut k, "/bin/hello"), Err(()));
    assert_eq!(k.sched.task_count(), 2);
    assert_eq!(k.sched.ready_queue(), vec![1]);
    assert_eq!(k.mem.frames_used(), 5);
    let mut k = kernel_with(32, &program(b"x", 0xffff_8000_0000_0000, 0));
    assert_eq!(spawn_user_elf(&mut k, "/bin/hello"), Err(()));
    assert_eq!(k.sched.task_count(), 2);
}

#[test]
fn a_kernel_task_is_spawned_in_the_active_space() {
    let mut k = kernel();
    assert_eq!(spawn(&mut k, "worker"), 3);
    let t = k.sched.task(2).unwrap();
    assert_eq!((t.name(), t.ctx.rip, t.cr3), ("worker", 0x300, 0x1000));
    assert_eq!(k.sched.ready_queue(), vec![1, 2]);
}

#[test]
fn the_frame_for_user_mode_has_the_user_privilege_level() {
    let f = enter_user(0x40_0000, 0x7000, 0x18, 0x20);
    assert_eq!((f.rip, f.rsp, f.rflags, f.cs, f.ss), (0x40_0000, 0x7000, 0x202, 0x1b, 0x23));
    let g = enter_user(1, 2, 0x1b, 0xffff);
    assert_eq!((g.cs, g.ss), (0x1b, 0xffff));
}
