use waemom::heap::Bump;
use waemom::scheduler::{current_task, init, on_tick, sleep_current, spawn_kernel, user_trampoline, Scheduler};
use waemom::task::{alloc_pid, State, Task, UserCtx};

fn heap() -> Bump {
    let mut h = Bump::new();
    h.init(0x10_0000, 512 * 1024);
    h
}

fn boot() -> (Scheduler, Bump) {
    let mut h = heap();
    let s = init(&mut h, 0x1000, 0x2000);
    (s, h)
}

fn running(s: &Scheduler) -> Vec<usize> {
    (0..s.task_count()).filter(|&i| s.state_of(i) == Some(State::Running)).collect()
}

#[test]
fn fresh_boot_has_one_running_idle_task() {
    let (s, h) = boot();
    assert_eq!(s.task_count(), 1);
    assert_eq!(s.current(), Some(0));
    assert_eq!(s.state_of(0), Some(State::Running));
    assert!(s.ready_queue().is_empty());
    let idle = s.task(0).unwrap();
    assert_eq!(idle.name(), "idle");
    assert_eq!(idle.pid, 1);
    assert_eq!(idle.cr3, 0x2000);
    assert_eq!(idle.stack_ptr, 0x10_0000);
    assert_eq!(idle.ctx.rsp, 0x10_0000 + 16384);
    assert_eq!(idle.ctx.rip, 0x1000);
    assert_eq!(idle.priority, 10);
    assert!(idle.user.is_none());
    assert_eq!(s.next_pid(), 2);
    assert_eq!(h.next(), 0x10_0000 + 16384);
    assert_eq!(s.state_of(1), None);
    assert!(s.task(1).is_none());
}

#[test]
fn two_ticks_run_a_then_b() {
    let (mut s, mut h) = boot();
    let a = spawn_kernel(&mut s, &mut h, "A", 0x1100, 0x2000);
    let b = spawn_kernel(&mut s, &mut h, "B", 0x1200, 0x2000);
    assert_eq!((a, b), (2, 3));
    assert_eq!(s.ready_queue(), vec![1, 2]);
    assert_eq!(s.task(1).unwrap().name(), "A");
    assert_eq!(s.task(2).unwrap().stack_ptr, 0x10_0000 + 2 * 16384);
    let sw = on_tick(&mut s, 0x2000, 0).unwrap();
    assert_eq!((sw.from, sw.to, sw.root), (0, 1, None));
    assert_eq!(running(&s), vec![1]);
    assert_eq!(s.state_of(0), Some(State::Ready));
    let sw = on_tick(&mut s, 0x2000, 0).unwrap();
    assert_eq!((sw.from, sw.to), (1, 2));
    assert_eq!(s.current(), Some(2));
    assert_eq!(running(&s), vec![2]);
    assert_eq!(s.ready_queue(), vec![0, 1]);
}

#[test]
fn sleep_of_300_ticks_lasts_three_seconds() {
    let (mut s, mut h) = boot();
    spawn_kernel(&mut s, &mut h, "A", 0x1100, 0x2000);
    on_tick(&mut s, 0x2000, 10);
    assert_eq!(s.current(), Some(1));
    sleep_current(&mut s, 10, 300);
    assert_eq!(s.state_of(1), Some(State::Sleeping(13)));
    assert_eq!(s.current(), Some(1));
    on_tick(&mut s, 0x2000, 11);
    assert_eq!(s.current(), Some(0));
    on_tick(&mut s, 0x2000, 12);
    assert_eq!(s.state_of(1), Some(State::Sleeping(13)));
    assert!(!s.ready_queue().contains(&1));
    assert_eq!(s.current(), Some(0));
    on_tick(&mut s, 0x2000, 13);
    assert_eq!(s.state_of(1), Some(State::Running));
    assert_eq!(s.ready_queue(), vec![0]);
}

#[test]
fn sleep_below_one_second_wakes_at_once() {
    let (mut s, mut h) = boot();
    spawn_kernel(&mut s, &mut h, "A", 0x1100, 0x2000);
    sleep_current(&mut s, 7, 99);
    assert_eq!(s.state_of(0), Some(State::Sleeping(7)));
    let sw = on_tick(&mut s, 0x2000, 7).unwrap();
    assert_eq!((sw.from, sw.to), (0, 1));
    assert_eq!(s.ready_queue(), vec![0]);
    assert_eq!(s.state_of(0), Some(State::Ready));
}

#[test]
fn sleep_deadline_stops_at_the_greatest_value() {
    let (mut s, _h) = boot();
    sleep_current(&mut s, u64::MAX - 1, 1000);
    assert_eq!(s.state_of(0), Some(State::Sleeping(u64::MAX)));
}

#[test]
fn a_tick_with_every_task_asleep_changes_nothing() {
    let (mut s, _h) = boot();
    sleep_current(&mut s, 0, 500);
    assert!(on_tick(&mut s, 0x2000, 1).is_none());
    assert_eq!(s.state_of(0), Some(State::Sleeping(5)));
    assert_eq!(s.current(), Some(0));
    assert!(running(&s).is_empty());
    let sw = on_tick(&mut s, 0x2000, 5).unwrap();
    assert_eq!((sw.from, sw.to), (0, 0));
    assert_eq!(running(&s), vec![0]);
}

#[test]
fn exactly_one_task_runs_after_every_tick() {
    let (mut s, mut h) = boot();
    for name in ["a", "b", "c", "d"] {
        spawn_kernel(&mut s, &mut h, name, 0x1100, 0x2000);
    }
    for now in 0..20 {
        on_tick(&mut s, 0x2000, now);
        assert_eq!(running(&s), vec![s.current().unwrap()]);
    }
}

#[test]
fn round_robin_serves_every_task_within_n_ticks() {
    let (mut s, mut h) = boot();
    for name in ["a", "b", "c", "d"] {
        spawn_kernel(&mut s, &mut h, name, 0x1100, 0x2000);
    }
    let n = s.task_count();
    let mut seen = vec![false; n];
    for _ in 0..n {
        on_tick(&mut s, 0x2000, 0);
        seen[s.current().unwrap()] = true;
    }
    assert!(seen.iter().all(|&x| x));
    let order: Vec<usize> = (0..10).map(|_| on_tick(&mut s, 0x2000, 0).unwrap().to).collect();
    assert_eq!(order, vec![1, 2, 3, 4, 0, 1, 2, 3, 4, 0]);
}

#[test]
fn woken_tasks_join_the_queue_before_the_preempted_one() {
    let (mut s, mut h) = boot();
    spawn_kernel(&mut s, &mut h, "a", 0x1100, 0x2000);
    spawn_kernel(&mut s, &mut h, "b", 0x1100, 0x2000);
    on_tick(&mut s, 0x2000, 0);
    sleep_current(&mut s, 0, 200);
    on_tick(&mut s, 0x2000, 0);
    assert_eq!(s.current(), Some(2));
    assert_eq!(s.ready_queue(), vec![0]);
    on_tick(&mut s, 0x2000, 2);
    assert_eq!(s.current(), Some(0));
    assert_eq!(s.ready_queue(), vec![1, 2]);
}

#[test]
fn a_tick_asks_for_the_root_of_a_task_in_another_space() {
    let (mut s, mut h) = boot();
    spawn_kernel(&mut s, &mut h, "a", 0x1100, 0x9000);
    let sw = on_tick(&mut s, 0x2000, 0).unwrap();
    assert_eq!(sw.root, Some(0x9000));
    let sw = on_tick(&mut s, 0x9000, 0).unwrap();
    assert_eq!((sw.to, sw.root), (0, Some(0x2000)));
}

#[test]
fn a_name_that_does_not_fit_is_left_empty() {
    let (mut s, mut h) = boot();
    spawn_kernel(&mut s, &mut h, "0123456789abcdef0123456789abcdef", 0, 0);
    spawn_kernel(&mut s, &mut h, "0123456789abcdef0123456789abcdefX", 0, 0);
    assert_eq!(s.task(1).unwrap().name(), "0123456789abcdef0123456789abcdef");
    assert_eq!(s.task(2).unwrap().name(), "");
}

#[test]
fn a_task_without_room_for_a_stack_gets_the_null_stack() {
    let mut h = Bump::new();
    h.init(0x1000, 16384 + 100);
    let mut s = init(&mut h, 1, 2);
    let pid = spawn_kernel(&mut s, &mut h, "late", 5, 2);
    assert_eq!(pid, 2);
    assert_eq!(s.task(0).unwrap().stack_ptr, 0x1000);
    assert_eq!(s.task(1).unwrap().stack_ptr, 0);
    assert_eq!(s.task(1).unwrap().ctx.rsp, 16384);
    assert_eq!(h.next(), 0x1000 + 16384);
}

#[test]
fn the_pending_entry_is_handed_out_once() {
    let (mut s, mut h) = boot();
    spawn_kernel(&mut s, &mut h, "user", 0x1100, 0x2000);
    s.make_user(1, UserCtx { rip: 0x40_0000, rsp: 0x7000 }, 0x5000);
    assert_eq!(user_trampoline(&mut s), None);
    on_tick(&mut s, 0x2000, 0);
    assert_eq!(current_task(&s).cr3, 0x5000);
    assert_eq!(user_trampoline(&mut s), Some(UserCtx { rip: 0x40_0000, rsp: 0x7000 }));
    assert_eq!(user_trampoline(&mut s), None);
    assert_eq!(s.find_pid(2), Some(1));
    assert_eq!(s.find_pid(9), None);
}

#[test]
fn identifiers_count_up_and_wrap() {
    let mut next = 5;
    assert_eq!(alloc_pid(&mut next), 5);
    assert_eq!(alloc_pid(&mut next), 6);
    assert_eq!(next, 7);
    let mut last = u64::MAX;
    assert_eq!(alloc_pid(&mut last), u64::MAX);
    assert_eq!(last, 0);
}

#[test]
fn a_new_kernel_task_is_ready() {
    let t = Task::new_kernel(7, "worker", 0xABC, 0x4000, 0x1000);
    assert_eq!(t.pid, 7);
    assert_eq!(t.name(), "worker");
    assert_eq!(t.state, State::Ready);
    assert_eq!(t.ctx.rip, 0xABC);
    assert_eq!(t.ctx.rsp, 0x4000 + 16384);
    assert_eq!((t.ctx.r15, t.ctx.rbx, t.ctx.rbp, t.ctx.rflags), (0, 0, 0, 0));
}
