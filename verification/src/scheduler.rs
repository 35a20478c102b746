use crate::heap::{align_up, Bump, BumpView};
use crate::task::{alloc_pid, initial_context, stored_name, State, Task, TaskView, UserCtx, DEFAULT_PRIORITY, STACK_SIZE};
use std::collections::VecDeque;
use vstd::prelude::*;

verus! {

/// Timer ticks per second.
pub const TICKS_PER_SECOND: u64 = 100;

/// The task table and what the scheduler keeps beside it: the queue of ready
/// slots, the slot of the task that has the processor, and the next free
/// identifier.
pub struct Scheduler {
    tasks: Vec<Task>,
    ready: VecDeque<usize>,
    current: Option<usize>,
    next_pid: u64,
}

/// What the scheduler holds, as plain values.
pub struct SchedView {
    pub tasks: Seq<TaskView>,
    pub ready: Seq<usize>,
    pub current: Option<usize>,
    pub next_pid: u64,
}

/// What a tick asks the machine to do: make `root` the active address space
/// where it is given, then save the running context into the task at `from`
/// and resume the task at `to`.
#[derive(Clone, Copy, Debug, PartialEq, Eq, Structural)]
pub struct Switch {
    pub from: usize,
    pub to: usize,
    pub root: Option<u64>,
}

impl View for Scheduler {
    type V = SchedView;

    closed spec fn view(&self) -> SchedView {
        SchedView {
            tasks: Seq::new(self.tasks@.len(), |i: int| self.tasks@[i]@),
            ready: self.ready@,
            current: self.current,
            next_pid: self.next_pid,
        }
    }
}

/// The task `t` in the state `st`.
pub open spec fn with_state(t: TaskView, st: State) -> TaskView {
    TaskView { state: st, ..t }
}

/// True when the task sleeps and its deadline is reached at `now`.
pub open spec fn due(t: TaskView, now: u64) -> bool {
    match t.state {
        State::Sleeping(until) => now >= until,
        _ => false,
    }
}

/// The slots among the first `n` whose tasks are due at `now`, in rising order.
pub open spec fn woken(tasks: Seq<TaskView>, now: u64, n: nat) -> Seq<usize>
    decreases n,
{
    if n == 0 {
        Seq::empty()
    } else {
        let before = woken(tasks, now, (n - 1) as nat);
        if due(tasks[n - 1], now) {
            before.push((n - 1) as usize)
        } else {
            before
        }
    }
}

/// The table after every due task was made ready.
pub open spec fn after_wake(tasks: Seq<TaskView>, now: u64) -> Seq<TaskView> {
    Seq::new(tasks.len(), |i: int| if due(tasks[i], now) { with_state(tasks[i], State::Ready) } else { tasks[i] })
}

impl SchedView {
    /// The table is consistent: a task has the processor; only that task can
    /// be running, and it is running or has asked to sleep; the ready queue
    /// holds the slots of the ready tasks, each exactly once.
    pub open spec fn wf(self) -> bool {
        &&& self.tasks.len() <= usize::MAX
        &&& self.current is Some
        &&& self.current->0 < self.tasks.len()
        &&& self.tasks[self.current->0 as int].state is Running || self.tasks[self.current->0 as int].state is Sleeping
        &&& forall|i: int| 0 <= i < self.tasks.len() && (#[trigger] self.tasks[i]).state is Running ==> self.current == Some(i as usize)
        &&& self.ready.no_duplicates()
        &&& forall|k: int| 0 <= k < self.ready.len() ==> (#[trigger] self.ready[k]) < self.tasks.len()
        &&& forall|k: int| 0 <= k < self.ready.len() ==> self.tasks[(#[trigger] self.ready[k]) as int].state is Ready
        &&& forall|i: int| 0 <= i < self.tasks.len() && (#[trigger] self.tasks[i]).state is Ready ==> self.ready.contains(i as usize)
    }

    /// Every identifier in the table lies below the next free one, and no two
    /// tasks share one.
    pub open spec fn pids_fresh(self) -> bool {
        &&& forall|i: int| 0 <= i < self.tasks.len() ==> (#[trigger] self.tasks[i]).pid < self.next_pid
        &&& forall|i: int, j: int| 0 <= i < j < self.tasks.len() ==> (#[trigger] self.tasks[i]).pid != (#[trigger] self.tasks[j]).pid
    }

    /// The table and the queue once the due tasks are awake and the running
    /// task, if one runs, is back at the tail of the queue.
    pub open spec fn before_pick(self, now: u64) -> (Seq<TaskView>, Seq<usize>) {
        let t1 = after_wake(self.tasks, now);
        let r1 = self.ready + woken(self.tasks, now, self.tasks.len());
        let c = self.current->0 as int;
        if t1[c].state is Running {
            (t1.update(c, with_state(t1[c], State::Ready)), r1.push(c as usize))
        } else {
            (t1, r1)
        }
    }

    /// The state after one timer tick at the time `now`.
    pub open spec fn tick(self, now: u64) -> SchedView {
        let (t2, r2) = self.before_pick(now);
        if r2.len() == 0 {
            SchedView { tasks: t2, ready: r2, ..self }
        } else {
            let next = r2[0];
            SchedView {
                tasks: t2.update(next as int, with_state(t2[next as int], State::Running)),
                ready: r2.drop_first(),
                current: Some(next),
                next_pid: self.next_pid,
            }
        }
    }

    /// What one timer tick at the time `now` asks the machine to do while
    /// `active_root` is the active address space.
    pub open spec fn tick_action(self, active_root: u64, now: u64) -> Option<Switch> {
        let (t2, r2) = self.before_pick(now);
        if r2.len() == 0 {
            None
        } else {
            let next = r2[0];
            Some(Switch {
                from: self.current->0,
                to: next,
                root: if t2[next as int].cr3 != active_root { Some(t2[next as int].cr3) } else { None },
            })
        }
    }

    /// The state after a new kernel task was appended.
    pub open spec fn spawned(self, name: Seq<char>, entry: u64, stack_ptr: u64, cr3: u64) -> SchedView {
        SchedView {
            tasks: self.tasks.push(TaskView {
                pid: self.next_pid,
                name: stored_name(name),
                ctx: initial_context(entry, stack_ptr),
                stack_ptr,
                cr3,
                user: None,
                state: State::Ready,
                priority: DEFAULT_PRIORITY,
            }),
            ready: self.ready.push(self.tasks.len() as usize),
            current: self.current,
            next_pid: if self.next_pid < u64::MAX { (self.next_pid + 1) as u64 } else { 0 },
        }
    }
}

/// The deadline of a sleep of `ticks` ticks asked for at the time `now`, in
/// whole seconds: the ticks are divided by the tick frequency, rounding down,
/// and the sum stops at the greatest value.
pub open spec fn wake_deadline(now: u64, ticks: u64) -> u64 {
    if now + ticks / TICKS_PER_SECOND <= u64::MAX {
        (now + ticks / TICKS_PER_SECOND) as u64
    } else {
        u64::MAX
    }
}

/// Alignment of a task's stack.
pub const STACK_ALIGN: usize = 16;

/// The address of the stack that a new task gets from `heap`: the next
/// address aligned to 16 bytes, or zero where the heap has not enough room.
pub open spec fn stack_for(heap: BumpView) -> u64 {
    if heap.fits(STACK_SIZE as usize, STACK_ALIGN) {
        align_up(heap.next as int, STACK_ALIGN as int) as u64
    } else {
        0
    }
}

/// The heap after a new task took its stack from it.
pub open spec fn heap_after_stack(heap: BumpView) -> BumpView {
    if heap.fits(STACK_SIZE as usize, STACK_ALIGN) {
        BumpView { next: (align_up(heap.next as int, STACK_ALIGN as int) + STACK_SIZE) as usize, ..heap }
    } else {
        heap
    }
}

/// Takes the stack of a new task from the heap.
fn alloc_stack(heap: &mut Bump) -> (stack_ptr: u64)
    requires
        old(heap)@.wf(),
    ensures
        final(heap)@.wf(),
        final(heap)@ == heap_after_stack(old(heap)@),
        stack_ptr == stack_for(old(heap)@),
        stack_ptr + STACK_SIZE <= u64::MAX,
{
    match heap.allocate(STACK_SIZE as usize, STACK_ALIGN) {
        Some(addr) => addr as u64,
        None => 0,
    }
}

/// Sets up the scheduler: the table holds one task, the idle task, which is
/// running on a stack from `heap`; the ready queue is empty.
pub fn init(heap: &mut Bump, idle_entry: u64, cr3: u64) -> (s: Scheduler)
    requires
        old(heap)@.wf(),
    ensures
        final(heap)@.wf(),
        final(heap)@ == heap_after_stack(old(heap)@),
        s@.wf(),
        s@.pids_fresh(),
        s@.tasks == seq![with_state(
            TaskView {
                pid: 1,
                name: stored_name("idle"@),
                ctx: initial_context(idle_entry, stack_for(old(heap)@)),
                stack_ptr: stack_for(old(heap)@),
                cr3,
                user: None,
                state: State::Ready,
                priority: DEFAULT_PRIORITY,
            },
            State::Running,
        )],
        s@.ready == Seq::<usize>::empty(),
        s@.current == Some(0usize),
        s@.next_pid == 2,
{
    let stack_ptr = alloc_stack(heap);
    let mut next_pid: u64 = 1;
    let idle_pid = alloc_pid(&mut next_pid);
    let mut idle = Task::new_kernel(idle_pid, "idle", idle_entry, stack_ptr, cr3);
    idle.state = State::Running;
    let mut tasks: Vec<Task> = Vec::new();
    tasks.push(idle);
    let s = Scheduler { tasks, ready: VecDeque::new(), current: Some(0), next_pid };
    proof {
        assert(s@.tasks =~= seq![with_state(
            TaskView {
                pid: 1,
                name: stored_name("idle"@),
                ctx: initial_context(idle_entry, stack_ptr),
                stack_ptr,
                cr3,
                user: None,
                state: State::Ready,
                priority: DEFAULT_PRIORITY,
            },
            State::Running,
        )]);
    }
    s
}

/// Appends a new kernel task that will run `entry` in the address space
/// `cr3`: it gets the next identifier and a stack from `heap`, is ready, and
/// its slot goes to the tail of the ready queue. Returns the identifier.
pub fn spawn_kernel(s: &mut Scheduler, heap: &mut Bump, name: &str, entry: u64, cr3: u64) -> (pid: u64)
    requires
        old(s)@.wf(),
        old(heap)@.wf(),
    ensures
        final(heap)@.wf(),
        final(heap)@ == heap_after_stack(old(heap)@),
        final(s)@ == old(s)@.spawned(name@, entry, stack_for(old(heap)@), cr3),
        pid == old(s)@.next_pid,
        final(s)@.wf(),
        old(s)@.pids_fresh() && old(s)@.next_pid < u64::MAX ==> final(s)@.pids_fresh(),
{
    let stack_ptr = alloc_stack(heap);
    let pid = alloc_pid(&mut s.next_pid);
    let t = Task::new_kernel(pid, name, entry, stack_ptr, cr3);
    let idx = s.tasks.len();
    s.tasks.push(t);
    s.ready.push_back(idx);
    let _count = s.tasks.len();
    proof {
        let a = old(s)@;
        let b = s@;
        assert(b.tasks =~= a.spawned(name@, entry, stack_ptr, cr3).tasks);
        assert(stack_ptr == stack_for(old(heap)@));
        assert(b.ready =~= a.ready.push(idx));
        assert forall|k: int| 0 <= k < b.ready.len() implies b.tasks[(#[trigger] b.ready[k]) as int].state is Ready by {
            if k < a.ready.len() {
                assert(b.ready[k] == a.ready[k]);
                assert(b.tasks[a.ready[k] as int] == a.tasks[a.ready[k] as int]);
            }
        }
        assert forall|i: int| 0 <= i < b.tasks.len() && (#[trigger] b.tasks[i]).state is Ready implies b.ready.contains(i as usize) by {
            if i < a.tasks.len() {
                assert(b.tasks[i] == a.tasks[i]);
                let k = choose|k: int| 0 <= k < a.ready.len() && a.ready[k] == i as usize;
                assert(b.ready[k] == i as usize);
            } else {
                assert(b.ready[a.ready.len() as int] == i as usize);
            }
        }
        assert forall|i: int| 0 <= i < b.tasks.len() && (#[trigger] b.tasks[i]).state is Running implies b.current == Some(i as usize) by {
            if i < a.tasks.len() {
                assert(b.tasks[i] == a.tasks[i]);
            }
        }
        assert(b.tasks[b.current->0 as int] == a.tasks[a.current->0 as int]);
        assert(b.ready.no_duplicates()) by {
            assert forall|x: int, y: int| 0 <= x < b.ready.len() && 0 <= y < b.ready.len() && x != y implies b.ready[x] != b.ready[y] by {
                if x < a.ready.len() {
                    assert(a.ready[x] < a.tasks.len());
                }
                if y < a.ready.len() {
                    assert(a.ready[y] < a.tasks.len());
                }
            }
        }
        if a.pids_fresh() && a.next_pid < u64::MAX {
            assert forall|i: int| 0 <= i < b.tasks.len() implies (#[trigger] b.tasks[i]).pid < b.next_pid by {
                if i < a.tasks.len() {
                    assert(b.tasks[i] == a.tasks[i]);
                }
            }
            assert forall|i: int, j: int| 0 <= i < j < b.tasks.len() implies (#[trigger] b.tasks[i]).pid != (#[trigger] b.tasks[j]).pid by {
                assert(b.tasks[i] == a.tasks[i]);
                if j < a.tasks.len() {
                    assert(b.tasks[j] == a.tasks[j]);
                }
            }
        }
    }
    pid
}

/// Puts the task that has the processor to sleep until `ticks` ticks after
/// `now`, counted in whole seconds. The task keeps the processor until the
/// next tick.
pub fn sleep_current(s: &mut Scheduler, now: u64, ticks: u64)
    requires
        old(s)@.wf(),
    ensures
        final(s)@.wf(),
        final(s)@ == (SchedView {
            tasks: old(s)@.tasks.update(
                old(s)@.current->0 as int,
                with_state(old(s)@.tasks[old(s)@.current->0 as int], State::Sleeping(wake_deadline(now, ticks))),
            ),
            ..old(s)@
        }),
{
    let extra = ticks / TICKS_PER_SECOND;
    let until: u64 = if now <= u64::MAX - extra { now + extra } else { u64::MAX };
    if let Some(cur) = s.current {
        s.tasks[cur].state = State::Sleeping(until);
        proof {
            let a = old(s)@;
            let b = s@;
            assert(b.tasks =~= a.tasks.update(cur as int, with_state(a.tasks[cur as int], State::Sleeping(until))));
            assert forall|k: int| 0 <= k < b.ready.len() implies b.tasks[(#[trigger] b.ready[k]) as int].state is Ready by {
                assert(a.tasks[a.ready[k] as int].state is Ready);
            }
            assert forall|i: int| 0 <= i < b.tasks.len() && (#[trigger] b.tasks[i]).state is Ready implies b.ready.contains(i as usize) by {
                assert(a.tasks[i].state is Ready);
            }
            assert forall|i: int| 0 <= i < b.tasks.len() && (#[trigger] b.tasks[i]).state is Running implies b.current == Some(i as usize) by {
                assert(a.tasks[i].state is Running);
            }
        }
    }
}

/// The woken slots are exactly the due slots below `n`, in rising order.
pub proof fn lemma_woken(tasks: Seq<TaskView>, now: u64, n: nat)
    requires
        n <= tasks.len(),
        n <= usize::MAX,
    ensures
        woken(tasks, now, n).len() <= n,
        forall|k: int| 0 <= k < woken(tasks, now, n).len() ==> (#[trigger] woken(tasks, now, n)[k]) < n && due(
            tasks[woken(tasks, now, n)[k] as int],
            now,
        ),
        forall|k: int, l: int| 0 <= k < l < woken(tasks, now, n).len() ==> (#[trigger] woken(tasks, now, n)[k]) < (
        #[trigger] woken(tasks, now, n)[l]),
        forall|i: int| 0 <= i < n && due(#[trigger] tasks[i], now) ==> woken(tasks, now, n).contains(i as usize),
    decreases n,
{
    if n > 0 {
        let before = woken(tasks, now, (n - 1) as nat);
        let all = woken(tasks, now, n);
        lemma_woken(tasks, now, (n - 1) as nat);
        if due(tasks[n - 1], now) {
            assert(all == before.push((n - 1) as usize));
            assert forall|i: int| 0 <= i < n && due(#[trigger] tasks[i], now) implies all.contains(i as usize) by {
                if i < n - 1 {
                    let k = choose|k: int| 0 <= k < before.len() && before[k] == i as usize;
                    assert(all[k] == i as usize);
                } else {
                    assert(all[before.len() as int] == i as usize);
                }
            }
        }
    }
}

/// A tick keeps the table consistent.
pub proof fn lemma_tick_wf(s: SchedView, now: u64)
    requires
        s.wf(),
    ensures
        s.tick(now).wf(),
        s.tick(now).tasks.len() == s.tasks.len(),
{
    let n = s.tasks.len();
    let c = s.current->0 as int;
    let t1 = after_wake(s.tasks, now);
    let w = woken(s.tasks, now, n);
    let r1 = s.ready + w;
    lemma_woken(s.tasks, now, n);
    assert forall|k: int| 0 <= k < r1.len() implies (#[trigger] r1[k]) < n && t1[r1[k] as int].state is Ready by {
        if k < s.ready.len() {
            assert(r1[k] == s.ready[k]);
        } else {
            assert(r1[k] == w[k - s.ready.len()]);
        }
    }
    assert forall|x: int, y: int| 0 <= x < y < r1.len() implies r1[x] != r1[y] by {
        if y < s.ready.len() {
            assert(r1[x] == s.ready[x] && r1[y] == s.ready[y]);
        } else if x < s.ready.len() {
            assert(r1[x] == s.ready[x]);
            assert(r1[y] == w[y - s.ready.len()]);
            assert(s.tasks[s.ready[x] as int].state is Ready);
            assert(due(s.tasks[w[y - s.ready.len()] as int], now));
        } else {
            assert(r1[x] == w[x - s.ready.len()]);
            assert(r1[y] == w[y - s.ready.len()]);
        }
    }
    assert forall|i: int| 0 <= i < n && (#[trigger] t1[i]).state is Ready implies r1.contains(i as usize) by {
        if due(s.tasks[i], now) {
            let k = choose|k: int| 0 <= k < w.len() && w[k] == i as usize;
            assert(r1[s.ready.len() + k] == i as usize);
        } else {
            assert(s.tasks[i].state is Ready);
            let k = choose|k: int| 0 <= k < s.ready.len() && s.ready[k] == i as usize;
            assert(r1[k] == i as usize);
        }
    }
    assert forall|i: int| 0 <= i < n && (#[trigger] t1[i]).state is Running implies i == c by {
        assert(s.tasks[i].state is Running);
    }
    let (t2, r2) = s.before_pick(now);
    assert forall|k: int| 0 <= k < r2.len() implies (#[trigger] r2[k]) < n && t2[r2[k] as int].state is Ready by {
        if k < r1.len() {
            assert(r2[k] == r1[k]);
        }
    }
    assert forall|x: int, y: int| 0 <= x < y < r2.len() implies r2[x] != r2[y] by {
        if y < r1.len() {
            assert(r2[x] == r1[x] && r2[y] == r1[y]);
        } else {
            assert(r2[x] == r1[x]);
            assert(t1[r1[x] as int].state is Ready);
        }
    }
    assert forall|i: int| 0 <= i < n && (#[trigger] t2[i]).state is Ready implies r2.contains(i as usize) by {
        if t1[c].state is Running && i == c {
            assert(r2[r1.len() as int] == i as usize);
        } else {
            assert(t1[i].state is Ready);
            let k = choose|k: int| 0 <= k < r1.len() && r1[k] == i as usize;
            assert(r2[k] == i as usize);
        }
    }
    assert forall|i: int| 0 <= i < n implies !((#[trigger] t2[i]).state is Running) by {
        if t2[i].state is Running {
            assert(t1[i].state is Running);
        }
    }
    let f = s.tick(now);
    if r2.len() == 0 {
        if t2[c].state is Ready {
            assert(r2.contains(c as usize));
        }
        assert(t2[c].state is Sleeping) by {
            assert(s.tasks[c].state is Running || s.tasks[c].state is Sleeping);
        }
        assert(f.wf());
    } else {
        let next = r2[0];
        let r3 = r2.drop_first();
        assert(f.tasks[next as int].state is Running);
        assert forall|k: int| 0 <= k < r3.len() implies (#[trigger] r3[k]) < n && f.tasks[r3[k] as int].state is Ready by {
            assert(r3[k] == r2[k + 1]);
            assert(r2[k + 1] != r2[0]);
        }
        assert forall|x: int, y: int| 0 <= x < y < r3.len() implies r3[x] != r3[y] by {
            assert(r3[x] == r2[x + 1] && r3[y] == r2[y + 1]);
        }
        assert forall|i: int| 0 <= i < n && (#[trigger] f.tasks[i]).state is Ready implies r3.contains(i as usize) by {
            assert(t2[i].state is Ready);
            let k = choose|k: int| 0 <= k < r2.len() && r2[k] == i as usize;
            assert(k > 0);
            assert(r3[k - 1] == i as usize);
        }
        assert forall|i: int| 0 <= i < n && (#[trigger] f.tasks[i]).state is Running implies f.current == Some(i as usize) by {
            if i != next as int {
                assert(f.tasks[i] == t2[i]);
            }
        }
        assert(f.wf());
    }
}

/// A tick changes nothing of a task but its state: every task keeps its
/// slot, its identifier, its name, its context and its address space.
pub proof fn lemma_tick_keeps_slots(s: SchedView, now: u64, i: int)
    requires
        s.wf(),
        0 <= i < s.tasks.len(),
    ensures
        s.tick(now).tasks.len() == s.tasks.len(),
        s.tick(now).tasks[i] == with_state(s.tasks[i], s.tick(now).tasks[i].state),
        s.tick(now).next_pid == s.next_pid,
{
    lemma_tick_wf(s, now);
    lemma_woken(s.tasks, now, s.tasks.len());
    let (t2, r2) = s.before_pick(now);
    let t1 = after_wake(s.tasks, now);
    assert(t1[i] == with_state(s.tasks[i], t1[i].state));
    assert(t2[i] == with_state(s.tasks[i], t2[i].state));
    if r2.len() > 0 {
        let r1 = s.ready + woken(s.tasks, now, s.tasks.len());
        assert(r2[0] < s.tasks.len()) by {
            if r1.len() > 0 {
                assert(r2[0] == r1[0]);
                if s.ready.len() > 0 {
                    assert(r1[0] == s.ready[0]);
                } else {
                    assert(r1[0] == woken(s.tasks, now, s.tasks.len())[0]);
                }
            }
        }
    }
}

/// A tick keeps the identifiers as they are: where no two tasks share one
/// and each lies below the next free one before it, so it is after it.
pub proof fn lemma_tick_keeps_pids(s: SchedView, now: u64)
    requires
        s.wf(),
        s.pids_fresh(),
    ensures
        s.tick(now).pids_fresh(),
{
    let f = s.tick(now);
    lemma_tick_wf(s, now);
    assert forall|i: int| 0 <= i < f.tasks.len() implies (#[trigger] f.tasks[i]).pid == s.tasks[i].pid by {
        lemma_tick_keeps_slots(s, now, i);
    }
    assert forall|i: int| 0 <= i < f.tasks.len() implies (#[trigger] f.tasks[i]).pid < f.next_pid by {
        lemma_tick_keeps_slots(s, now, i);
        assert(s.tasks[i].pid < s.next_pid);
    }
    assert forall|i: int, j: int| 0 <= i < j < f.tasks.len() implies (#[trigger] f.tasks[i]).pid != (#[trigger] f.tasks[j]).pid by {
        assert(s.tasks[i].pid != s.tasks[j].pid);
    }
}

/// A tick never wakes a task before its deadline: such a task still sleeps
/// after the tick, with the same deadline, and its slot is not in the ready queue.
pub proof fn lemma_tick_keeps_sleepers(s: SchedView, now: u64, i: int, deadline: u64)
    requires
        s.wf(),
        0 <= i < s.tasks.len(),
        s.tasks[i].state == State::Sleeping(deadline),
        now < deadline,
    ensures
        s.tick(now).tasks[i].state == State::Sleeping(deadline),
        !s.tick(now).ready.contains(i as usize),
{
    lemma_tick_wf(s, now);
    let f = s.tick(now);
    let (t2, r2) = s.before_pick(now);
    let t1 = after_wake(s.tasks, now);
    assert(t1[i] == s.tasks[i]);
    assert(t2[i] == s.tasks[i]);
    if r2.len() > 0 {
        let next = r2[0];
        lemma_woken(s.tasks, now, s.tasks.len());
        if next as int == i {
            let r1 = s.ready + woken(s.tasks, now, s.tasks.len());
            if s.ready.len() > 0 {
                assert(r1[0] == s.ready[0]);
                assert(s.tasks[s.ready[0] as int].state is Ready);
            } else if r1.len() > 0 {
                assert(r1[0] == woken(s.tasks, now, s.tasks.len())[0]);
            } else {
                assert(r2[0] == s.current->0);
            }
            assert(false);
        }
        assert(f.tasks[i] == t2[i]);
    }
    if f.ready.contains(i as usize) {
        let k = choose|k: int| 0 <= k < f.ready.len() && f.ready[k] == i as usize;
        assert(f.tasks[f.ready[k] as int].state is Ready);
    }
}

/// One timer tick at the time `now`, while `active_root` is the active
/// address space. Tasks whose deadline is reached become ready and join the
/// tail of the ready queue in slot order; the running task becomes ready and
/// joins the tail after them; the head of the queue becomes the running task.
/// With an empty queue nothing else changes. Returns the switch for the
/// machine to carry out, if there is one.
pub fn on_tick(s: &mut Scheduler, active_root: u64, now: u64) -> (action: Option<Switch>)
    requires
        old(s)@.wf(),
    ensures
        final(s)@ == old(s)@.tick(now),
        action == old(s)@.tick_action(active_root, now),
        final(s)@.wf(),
        forall|i: int| 0 <= i < old(s)@.tasks.len() && (#[trigger] old(s)@.tasks[i]).state is Sleeping && !due(old(s)@.tasks[i], now)
            ==> final(s)@.tasks[i].state == old(s)@.tasks[i].state && !final(s)@.ready.contains(i as usize),
        old(s)@.pids_fresh() ==> final(s)@.pids_fresh(),
{
    let ghost a = s@;
    let n = s.tasks.len();
    proof {
        lemma_tick_wf(a, now);
        if a.pids_fresh() {
            lemma_tick_keeps_pids(a, now);
        }
        assert forall|i: int| 0 <= i < a.tasks.len() && (#[trigger] a.tasks[i]).state is Sleeping && !due(a.tasks[i], now)
            implies a.tick(now).tasks[i].state == a.tasks[i].state && !a.tick(now).ready.contains(i as usize) by {
            match a.tasks[i].state {
                State::Sleeping(deadline) => {
                    lemma_tick_keeps_sleepers(a, now, i, deadline);
                },
                _ => {},
            }
        }
    }
    let mut i: usize = 0;
    while i < n
        invariant
            i <= n,
            n == a.tasks.len(),
            s@.tasks.len() == n,
            s@.current == a.current,
            s@.next_pid == a.next_pid,
            s@.ready == a.ready + woken(a.tasks, now, i as nat),
            forall|j: int| 0 <= j < i ==> #[trigger] s@.tasks[j] == after_wake(a.tasks, now)[j],
            forall|j: int| i <= j < n ==> #[trigger] s@.tasks[j] == a.tasks[j],
        decreases n - i,
    {
        let ghost before = s@;
        proof {
            assert(s@.tasks[i as int] == a.tasks[i as int]);
            assert(s.tasks@[i as int]@ == s@.tasks[i as int]);
            assert((i + 1 - 1) as nat == i as nat);
            assert(woken(a.tasks, now, (i + 1) as nat) == if due(a.tasks[i as int], now) {
                woken(a.tasks, now, i as nat).push(i)
            } else {
                woken(a.tasks, now, i as nat)
            });
        }
        match s.tasks[i].state {
            State::Sleeping(until) => {
                if now >= until {
                    s.tasks[i].state = State::Ready;
                    s.ready.push_back(i);
                    proof {
                        assert(due(a.tasks[i as int], now));
                        assert(s@.tasks[i as int] == with_state(a.tasks[i as int], State::Ready));
                    }
                } else {
                    assert(!due(a.tasks[i as int], now));
                }
            },
            _ => {
                assert(!due(a.tasks[i as int], now));
            },
        }
        proof {
            assert(s@.tasks[i as int] == after_wake(a.tasks, now)[i as int]);
            assert(s@.ready =~= a.ready + woken(a.tasks, now, (i + 1) as nat));
            assert forall|j: int| 0 <= j < i + 1 implies #[trigger] s@.tasks[j] == after_wake(a.tasks, now)[j] by {
                if j < i {
                    assert(s@.tasks[j] == before.tasks[j]);
                }
            }
            assert forall|j: int| i + 1 <= j < n implies #[trigger] s@.tasks[j] == a.tasks[j] by {
                assert(s@.tasks[j] == before.tasks[j]);
            }
        }
        i += 1;
    }
    proof {
        assert(s@.tasks =~= after_wake(a.tasks, now));
    }
    let cur: usize = match s.current {
        Some(c) => c,
        None => {
            return None;
        },
    };
    match s.tasks[cur].state {
        State::Running => {
            s.tasks[cur].state = State::Ready;
            s.ready.push_back(cur);
        },
        _ => {},
    }
    proof {
        let (t2, r2) = a.before_pick(now);
        assert(s@.tasks =~= t2);
        assert(s@.ready =~= r2);
    }
    match s.ready.pop_front() {
        Some(next) => {
            proof {
                let (t2, r2) = a.before_pick(now);
                assert(next == r2[0]);
                assert(next < n);
                assert(s@.ready =~= r2.drop_first());
            }
            s.current = Some(next);
            s.tasks[next].state = State::Running;
            let next_cr3 = s.tasks[next].cr3;
            proof {
                assert(s@.tasks =~= a.tick(now).tasks);
            }
            Some(Switch { from: cur, to: next, root: if next_cr3 != active_root { Some(next_cr3) } else { None } })
        },
        None => None,
    }
}

impl SchedView {
    /// True when exactly the task at slot `i` is running.
    pub open spec fn only_running(self, i: int) -> bool {
        &&& 0 <= i < self.tasks.len()
        &&& forall|j: int| 0 <= j < self.tasks.len() ==> ((#[trigger] self.tasks[j]).state is Running <==> j == i)
    }

    /// True when no task sleeps or has ended: each is ready or running.
    pub open spec fn all_runnable(self) -> bool {
        forall|i: int| 0 <= i < self.tasks.len() ==> (#[trigger] self.tasks[i]).state is Ready || self.tasks[i].state is Running
    }

    /// The order in which round robin serves the tasks: the one that has the
    /// processor, then the ready queue from its head.
    pub open spec fn order(self) -> Seq<usize> {
        seq![self.current->0] + self.ready
    }

    /// The state after one tick at each of the given times, in turn.
    pub open spec fn run(self, times: Seq<u64>) -> SchedView
        decreases times.len(),
    {
        if times.len() == 0 {
            self
        } else {
            self.run(times.drop_last()).tick(times.last())
        }
    }
}

/// In a consistent table exactly one task is running, the one that has the
/// processor, unless that task has asked to sleep and waits for the next tick.
pub proof fn lemma_exactly_one_running(s: SchedView)
    requires
        s.wf(),
        !(s.tasks[s.current->0 as int].state is Sleeping),
    ensures
        s.only_running(s.current->0 as int),
{
    let c = s.current->0 as int;
    assert(s.tasks[c].state is Running);
    assert forall|j: int| 0 <= j < s.tasks.len() implies ((#[trigger] s.tasks[j]).state is Running <==> j == c) by {
        if s.tasks[j].state is Running {
            assert(s.current == Some(j as usize));
        }
    }
}

/// After a tick that found a task to run, exactly that task is running.
pub proof fn lemma_tick_one_running(s: SchedView, active_root: u64, now: u64)
    requires
        s.wf(),
        s.tick_action(active_root, now) is Some,
    ensures
        s.tick(now).only_running(s.tick_action(active_root, now)->0.to as int),
{
    lemma_tick_wf(s, now);
    let f = s.tick(now);
    let (t2, r2) = s.before_pick(now);
    assert(f.tasks[r2[0] as int].state is Running);
}

/// Where nothing is due, no slot is woken.
proof fn lemma_woken_none(tasks: Seq<TaskView>, now: u64, n: nat)
    requires
        n <= tasks.len(),
        forall|i: int| 0 <= i < tasks.len() ==> !due(#[trigger] tasks[i], now),
    ensures
        woken(tasks, now, n) == Seq::<usize>::empty(),
    decreases n,
{
    if n > 0 {
        lemma_woken_none(tasks, now, (n - 1) as nat);
    }
}

/// With every task ready or running, a tick moves the head of the service
/// order to its tail, and every task is ready or running afterwards.
pub proof fn lemma_tick_rotates(s: SchedView, now: u64)
    requires
        s.wf(),
        s.all_runnable(),
    ensures
        s.tick(now).wf(),
        s.tick(now).all_runnable(),
        s.tick(now).tasks.len() == s.tasks.len(),
        s.tick(now).order() == s.order().drop_first().push(s.order()[0]),
{
    lemma_tick_wf(s, now);
    let c = s.current->0;
    assert forall|i: int| 0 <= i < s.tasks.len() implies !due(#[trigger] s.tasks[i], now) by {
        assert(s.tasks[i].state is Ready || s.tasks[i].state is Running);
    }
    lemma_woken_none(s.tasks, now, s.tasks.len());
    let t1 = after_wake(s.tasks, now);
    assert(t1 =~= s.tasks);
    assert(s.ready + Seq::<usize>::empty() =~= s.ready);
    assert(s.tasks[c as int].state is Running);
    let (t2, r2) = s.before_pick(now);
    assert(r2 == s.ready.push(c));
    let f = s.tick(now);
    assert(f.order() =~= s.order().drop_first().push(s.order()[0]));
    assert forall|i: int| 0 <= i < f.tasks.len() implies (#[trigger] f.tasks[i]).state is Ready || f.tasks[i].state is Running by {
        assert(s.tasks[i].state is Ready || s.tasks[i].state is Running);
    }
}

/// With every task ready or running, `k` ticks, for `k` up to the length of
/// the service order, move the first `k` tasks of the order to its tail.
pub proof fn lemma_run_rotates(s: SchedView, times: Seq<u64>)
    requires
        s.wf(),
        s.all_runnable(),
        times.len() <= s.order().len(),
    ensures
        s.run(times).wf(),
        s.run(times).all_runnable(),
        s.run(times).tasks.len() == s.tasks.len(),
        s.run(times).order() == s.order().subrange(times.len() as int, s.order().len() as int) + s.order().subrange(
            0,
            times.len() as int,
        ),
    decreases times.len(),
{
    let o = s.order();
    let k = times.len() as int;
    if k == 0 {
        assert(o.subrange(0, o.len() as int) + o.subrange(0, 0) =~= o);
    } else {
        lemma_run_rotates(s, times.drop_last());
        let p = s.run(times.drop_last());
        lemma_tick_rotates(p, times.last());
        let po = p.order();
        assert(po == o.subrange(k - 1, o.len() as int) + o.subrange(0, k - 1));
        assert(po.drop_first().push(po[0]) =~= o.subrange(k, o.len() as int) + o.subrange(0, k));
    }
}

/// With every task ready or running, the service order holds every task
/// exactly once: it is as long as the table.
pub proof fn lemma_order_len(s: SchedView)
    requires
        s.wf(),
        s.all_runnable(),
    ensures
        s.order().len() == s.tasks.len(),
        s.order().no_duplicates(),
{
    let o = s.order();
    let n = s.tasks.len() as int;
    let c = s.current->0;
    assert(s.tasks[c as int].state is Running);
    assert forall|x: int, y: int| 0 <= x < o.len() && 0 <= y < o.len() && x != y implies o[x] != o[y] by {
        if x == 0 {
            assert(o[y] == s.ready[y - 1]);
            assert(s.tasks[s.ready[y - 1] as int].state is Ready);
        } else if y == 0 {
            assert(o[x] == s.ready[x - 1]);
            assert(s.tasks[s.ready[x - 1] as int].state is Ready);
        } else {
            assert(o[x] == s.ready[x - 1] && o[y] == s.ready[y - 1]);
        }
    }
    let ints = o.map_values(|v: usize| v as int);
    assert forall|x: int, y: int| 0 <= x < ints.len() && 0 <= y < ints.len() && x != y implies ints[x] != ints[y] by {
        assert(o[x] != o[y]);
    }
    ints.unique_seq_to_set();
    vstd::set_lib::lemma_int_range(0, n);
    assert(ints.to_set() =~= vstd::set_lib::set_int_range(0, n)) by {
        assert forall|v: int| ints.to_set().contains(v) <==> vstd::set_lib::set_int_range(0, n).contains(v) by {
            if ints.to_set().contains(v) {
                let k = choose|k: int| 0 <= k < ints.len() && ints[k] == v;
                if k > 0 {
                    assert(o[k] == s.ready[k - 1]);
                }
            }
            if 0 <= v < n {
                if v == c as int {
                    assert(ints[0] == v);
                } else {
                    assert(s.tasks[v].state is Ready);
                    let q = choose|q: int| 0 <= q < s.ready.len() && s.ready[q] == v as usize;
                    assert(ints[q + 1] == v);
                }
            }
        }
    }
}

/// Round robin is fair: with N tasks, each ready or running, every task has
/// the processor after some number of ticks between one and N, whatever the
/// times of the ticks.
pub proof fn lemma_round_robin(s: SchedView, times: Seq<u64>, i: int)
    requires
        s.wf(),
        s.all_runnable(),
        times.len() == s.tasks.len(),
        0 <= i < s.tasks.len(),
    ensures
        exists|k: int| 1 <= k <= times.len() && (#[trigger] s.run(times.take(k))).current == Some(i as usize)
            && s.run(times.take(k)).tasks[i].state is Running,
{
    lemma_order_len(s);
    let o = s.order();
    let m = o.len() as int;
    let c = s.current->0;
    let p: int = if i == c as int {
        0
    } else {
        assert(s.tasks[i].state is Ready);
        let q = choose|q: int| 0 <= q < s.ready.len() && s.ready[q] == i as usize;
        assert(o[q + 1] == i as usize);
        q + 1
    };
    assert(o[p] == i as usize);
    let k: int = if p == 0 { m } else { p };
    lemma_run_rotates(s, times.take(k));
    let f = s.run(times.take(k));
    let fo = f.order();
    assert(fo == o.subrange(k, m) + o.subrange(0, k));
    assert(fo[0] == o[p]);
    assert(fo[0] == f.current->0);
    assert(f.tasks[f.current->0 as int].state is Running);
}

/// True when `i` is the first slot whose task has the identifier `pid`.
pub open spec fn first_with_pid(tasks: Seq<TaskView>, pid: u64, i: int) -> bool {
    &&& 0 <= i < tasks.len()
    &&& tasks[i].pid == pid
    &&& forall|j: int| 0 <= j < i ==> (#[trigger] tasks[j]).pid != pid
}

/// True when some task has the identifier `pid`.
pub open spec fn has_pid(tasks: Seq<TaskView>, pid: u64) -> bool {
    exists|i: int| 0 <= i < tasks.len() && (#[trigger] tasks[i]).pid == pid
}

impl Scheduler {
    /// How many tasks the table holds.
    pub fn task_count(&self) -> (n: usize)
        ensures
            n == self@.tasks.len(),
    {
        self.tasks.len()
    }

    /// The slot of the task that has the processor.
    pub fn current(&self) -> (c: Option<usize>)
        ensures
            c == self@.current,
    {
        self.current
    }

    /// The identifier that the next new task gets.
    pub fn next_pid(&self) -> (pid: u64)
        ensures
            pid == self@.next_pid,
    {
        self.next_pid
    }

    /// The task at slot `i`, or `None` where the table has no such slot.
    pub fn task(&self, i: usize) -> (t: Option<&Task>)
        ensures
            i >= self@.tasks.len() ==> t is None,
            i < self@.tasks.len() ==> t is Some && t->0@ == self@.tasks[i as int],
    {
        if i < self.tasks.len() {
            Some(&self.tasks[i])
        } else {
            None
        }
    }

    /// The state of the task at slot `i`, or `None` where the table has no such slot.
    pub fn state_of(&self, i: usize) -> (st: Option<State>)
        ensures
            st == if i < self@.tasks.len() { Some(self@.tasks[i as int].state) } else { None },
    {
        if i < self.tasks.len() {
            Some(self.tasks[i].state)
        } else {
            None
        }
    }

    /// The ready queue from its head.
    pub fn ready_queue(&self) -> (q: Vec<usize>)
        ensures
            q@ == self@.ready,
    {
        let mut q: Vec<usize> = Vec::new();
        let mut k: usize = 0;
        while k < self.ready.len()
            invariant
                k <= self.ready@.len(),
                q@ == self.ready@.take(k as int),
            decreases self.ready@.len() - k,
        {
            q.push(self.ready[k]);
            proof {
                assert(q@ =~= self.ready@.take(k + 1));
            }
            k += 1;
        }
        proof {
            assert(self.ready@.take(k as int) =~= self.ready@);
        }
        q
    }

    /// The slot of the first task with the identifier `pid`, if there is one.
    pub fn find_pid(&self, pid: u64) -> (r: Option<usize>)
        ensures
            match r {
                Some(i) => first_with_pid(self@.tasks, pid, i as int),
                None => !has_pid(self@.tasks, pid),
            },
    {
        let mut i: usize = 0;
        while i < self.tasks.len()
            invariant
                i <= self.tasks@.len(),
                forall|j: int| 0 <= j < i ==> (#[trigger] self@.tasks[j]).pid != pid,
            decreases self.tasks@.len() - i,
        {
            if self.tasks[i].pid == pid {
                assert(self@.tasks[i as int].pid == pid);
                return Some(i);
            }
            i += 1;
        }
        None
    }

    /// Makes the task at slot `slot` a user task: it gets the pending entry
    /// `entry` and the address space `cr3`.
    pub fn make_user(&mut self, slot: usize, entry: UserCtx, cr3: u64)
        requires
            slot < old(self)@.tasks.len(),
        ensures
            final(self)@ == (SchedView {
                tasks: old(self)@.tasks.update(slot as int, TaskView { user: Some(entry), cr3, ..old(self)@.tasks[slot as int] }),
                ..old(self)@
            }),
            old(self)@.wf() ==> final(self)@.wf(),
            old(self)@.pids_fresh() ==> final(self)@.pids_fresh(),
    {
        self.tasks[slot].user = Some(entry);
        self.tasks[slot].cr3 = cr3;
        proof {
            let a = old(self)@;
            let b = self@;
            assert(b.tasks =~= a.tasks.update(slot as int, TaskView { user: Some(entry), cr3, ..a.tasks[slot as int] }));
            if a.wf() {
                assert forall|k: int| 0 <= k < b.ready.len() implies b.tasks[(#[trigger] b.ready[k]) as int].state is Ready by {
                    assert(a.tasks[a.ready[k] as int].state is Ready);
                }
                assert forall|j: int| 0 <= j < b.tasks.len() && (#[trigger] b.tasks[j]).state is Ready implies b.ready.contains(j as usize) by {
                    assert(a.tasks[j].state is Ready);
                }
                assert forall|j: int| 0 <= j < b.tasks.len() && (#[trigger] b.tasks[j]).state is Running implies b.current == Some(j as usize) by {
                    assert(a.tasks[j].state is Running);
                }
            }
            if a.pids_fresh() {
                assert forall|j: int| 0 <= j < b.tasks.len() implies (#[trigger] b.tasks[j]).pid < b.next_pid by {
                    assert(a.tasks[j].pid < a.next_pid);
                }
                assert forall|x: int, y: int| 0 <= x < y < b.tasks.len() implies (#[trigger] b.tasks[x]).pid != (#[trigger] b.tasks[y]).pid by {
                    assert(a.tasks[x].pid != a.tasks[y].pid);
                }
            }
        }
    }
}

/// Takes the pending entry into user mode of the task that has the
/// processor: returns it and leaves the task without one, so that it is
/// handed out once. Returns `None`, with nothing changed, where the task has none.
pub fn user_trampoline(s: &mut Scheduler) -> (entry: Option<UserCtx>)
    requires
        old(s)@.wf(),
    ensures
        final(s)@.wf(),
        entry == old(s)@.tasks[old(s)@.current->0 as int].user,
        final(s)@ == (SchedView {
            tasks: old(s)@.tasks.update(
                old(s)@.current->0 as int,
                TaskView { user: None, ..old(s)@.tasks[old(s)@.current->0 as int] },
            ),
            ..old(s)@
        }),
{
    match s.current {
        Some(cur) => {
            let entry = s.tasks[cur].user;
            s.tasks[cur].user = None;
            proof {
                let a = old(s)@;
                let b = s@;
                assert(b.tasks =~= a.tasks.update(cur as int, TaskView { user: None, ..a.tasks[cur as int] }));
                assert forall|k: int| 0 <= k < b.ready.len() implies b.tasks[(#[trigger] b.ready[k]) as int].state is Ready by {
                    assert(a.tasks[a.ready[k] as int].state is Ready);
                }
                assert forall|j: int| 0 <= j < b.tasks.len() && (#[trigger] b.tasks[j]).state is Ready implies b.ready.contains(j as usize) by {
                    assert(a.tasks[j].state is Ready);
                }
                assert forall|j: int| 0 <= j < b.tasks.len() && (#[trigger] b.tasks[j]).state is Running implies b.current == Some(j as usize) by {
                    assert(a.tasks[j].state is Running);
                }
            }
            entry
        },
        None => None,
    }
}

/// The task that has the processor.
pub fn current_task(s: &Scheduler) -> (t: &Task)
    requires
        s@.wf(),
    ensures
        t@ == s@.tasks[s@.current->0 as int],
{
    match s.current {
        Some(cur) => &s.tasks[cur],
        None => &s.tasks[0],
    }
}

} // verus!
