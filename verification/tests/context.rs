use waemom::context::{switch, Context};
use waemom::heap::Bump;

#[test]
fn the_zero_context_is_all_zero() {
    let c = Context::zero();
    assert_eq!(c, Context { r15: 0, r14: 0, r13: 0, r12: 0, rbx: 0, rbp: 0, rsp: 0, rip: 0, rflags: 0 });
}

#[test]
fn a_switch_saves_the_live_state_and_resumes_the_other() {
    let mut cpu = Context { r15: 1, r14: 2, r13: 3, r12: 4, rbx: 5, rbp: 6, rsp: 7, rip: 8, rflags: 9 };
    let mut a = Context::zero();
    let b = Context { rip: 0x5000, rsp: 0x9000, ..Context::zero() };
    let before = cpu;
    switch(&mut cpu, &mut a, &b);
    assert_eq!(a, before);
    assert_eq!(cpu, b);
    let mut c = Context::zero();
    switch(&mut cpu, &mut c, &a);
    assert_eq!(cpu, before);
    assert_eq!(c, b);
}

#[test]
fn the_heap_hands_out_aligned_ranges() {
    let mut h = Bump::new();
    assert_eq!(h.allocate(8, 8), None);
    h.init(1001, 100);
    h.init(5, 5);
    assert_eq!(h.allocate(10, 16), Some(1008));
    assert_eq!(h.next(), 1018);
    assert_eq!(h.allocate(1, 1), Some(1018));
    assert_eq!(h.allocate(8, 0), None);
    assert_eq!(h.allocate(82, 1), Some(1019));
    assert_eq!(h.allocate(1, 1), None);
    assert_eq!(h.allocate(0, 1), Some(1101));
    assert_eq!(h.next(), 1101);
}

#[test]
fn the_heap_ends_at_the_end_of_the_address_space() {
    let mut h = Bump::new();
    waemom::heap::init(&mut h, usize::MAX - 10, 100);
    assert_eq!(h.allocate(10, 1), Some(usize::MAX - 10));
    assert_eq!(h.allocate(1, 1), None);
}
