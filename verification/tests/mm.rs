use waemom::mm::{
    alloc_user_space, copy_to_frame, create_user_pml4, init, init_frame_alloc, map_user_region, map_user_stack, phys_to_virt,
    with_mapper_for_cr3, BootInfoFrameAlloc, Mapping, Memory, MemoryRegion,
};

fn region(start: u64, end: u64, usable: bool) -> MemoryRegion {
    MemoryRegion { start, end, usable }
}

fn kernel_entries() -> Vec<u64> {
    (0..256).map(|i| 0x1000 * i + 3).collect()
}

fn memory(frames: u64) -> Memory {
    init(&vec![region(0x10_0000, 0x10_0000 + frames * 4096, true)], 0x1000, kernel_entries())
}

fn drain(a: &mut BootInfoFrameAlloc) -> Vec<u64> {
    let mut out = Vec::new();
    while let Some(f) = a.allocate_frame() {
        out.push(f);
    }
    out
}

#[test]
fn the_allocator_takes_whole_frames_of_usable_regions() {
    let regions = vec![
        region(0x1000, 0x4000, true),
        region(0x8000, 0x9000, false),
        region(0x10000, 0x11fff, true),
        region(0x20800, 0x30000, true),
        region(0x40000, 0x40fff, true),
        region(0x50000, 0x40000, true),
    ];
    let mut a = init_frame_alloc(&regions);
    assert_eq!(a.total(), 4);
    assert_eq!(a.used(), 0);
    assert_eq!(drain(&mut a), vec![0x1000, 0x2000, 0x3000, 0x10000]);
}

#[test]
fn the_allocator_is_exhausted_after_its_last_frame() {
    let mut a = init_frame_alloc(&vec![region(0x1000, 0x3000, true)]);
    assert_eq!(a.allocate_frame(), Some(0x1000));
    assert_eq!(a.allocate_frame(), Some(0x2000));
    assert_eq!(a.used(), 2);
    for _ in 0..5 {
        assert_eq!(a.allocate_frame(), None);
        assert_eq!(a.used(), 2);
    }
    assert_eq!(BootInfoFrameAlloc::empty().allocate_frame(), None);
}

#[test]
fn the_allocator_never_hands_out_a_frame_twice() {
    let regions = vec![region(0x1000, 0x20000, true), region(0x40000, 0x80000, true), region(0x20000, 0x21000, true)];
    let mut a = init_frame_alloc(&regions);
    let all = drain(&mut a);
    assert_eq!(all.len(), 31 + 64 + 1);
    let mut sorted = all.clone();
    sorted.sort();
    sorted.dedup();
    assert_eq!(sorted.len(), all.len());
    assert!(all.iter().all(|f| f % 4096 == 0));
    assert_eq!(a.frame(0), 0x1000);
}

#[test]
fn the_allocator_keeps_the_first_4096_frames() {
    let mut a = init_frame_alloc(&vec![region(0, 5000 * 4096, true), region(0x1_0000_0000, 0x1_0000_2000, true)]);
    assert_eq!(a.total(), 4096);
    let all = drain(&mut a);
    assert_eq!(all.len(), 4096);
    assert_eq!(all[4095], 4095 * 4096);
}

#[test]
fn frames_above_the_physical_limit_are_left_out() {
    let limit = 1u64 << 52;
    let mut a = init_frame_alloc(&vec![region(limit - 0x2000, limit + 0x3000, true), region(limit, limit + 0x1000, true)]);
    assert_eq!(drain(&mut a), vec![limit - 0x2000, limit - 0x1000]);
}

#[test]
fn boot_memory_has_the_boot_space_only() {
    let mem = memory(4);
    assert_eq!(mem.active_root(), 0x1000);
    assert_eq!(mem.space_count(), 1);
    assert_eq!(mem.frames_total(), 4);
    assert_eq!(mem.frames_used(), 0);
    let boot = mem.space(0x1000).unwrap();
    assert_eq!(boot.kernel, kernel_entries());
    assert!(boot.user.is_empty());
    assert!(mem.space(0x2000).is_none());
    assert!(mem.frame_bytes(0).is_none());
    assert_eq!(with_mapper_for_cr3(&mem, 0x1000), Some(0));
    assert_eq!(with_mapper_for_cr3(&mem, 0x10_0000), None);
}

#[test]
fn a_new_space_shares_the_kernel_entries() {
    let mut mem = memory(2);
    let root = create_user_pml4(&mut mem).unwrap();
    assert_eq!(root, 0x10_0000);
    assert_eq!(mem.frames_used(), 1);
    assert_eq!(mem.frame_bytes(0).unwrap(), &vec![0u8; 4096]);
    let space = mem.space(root).unwrap();
    assert_eq!(space.kernel, kernel_entries());
    assert!(space.user.is_empty());
    assert_eq!(mem.active_root(), 0x1000);
    assert!(mem.set_active(root));
    assert_eq!(mem.active_root(), root);
    assert!(!mem.set_active(0x7777));
    assert_eq!(mem.active_root(), root);
    let second = alloc_user_space(&mut mem).unwrap();
    assert_eq!(second, 0x10_1000);
    assert_eq!(mem.space(second).unwrap().kernel, kernel_entries());
    assert_eq!(create_user_pml4(&mut mem), None);
    assert_eq!(mem.space_count(), 3);
}

#[test]
fn a_region_takes_one_frame_for_each_page() {
    let mut mem = memory(8);
    let root = create_user_pml4(&mut mem).unwrap();
    let frames = map_user_region(&mut mem, root, 0x40_0123, 4096 * 2 + 1, false).unwrap();
    assert_eq!(frames, vec![0x10_1000, 0x10_2000, 0x10_3000]);
    assert_eq!(
        mem.space(root).unwrap().user,
        vec![
            Mapping { page: 0x40_0000, frame: 0x10_1000, flags: 5 },
            Mapping { page: 0x40_1000, frame: 0x10_2000, flags: 5 },
            Mapping { page: 0x40_2000, frame: 0x10_3000, flags: 5 },
        ]
    );
    assert_eq!(mem.frames_used(), 4);
    assert!(mem.space(0x1000).unwrap().user.is_empty());
    assert_eq!(map_user_region(&mut mem, root, 0x50_0000, 0, true), Some(vec![]));
    assert_eq!(mem.frames_used(), 4);
    assert_eq!(map_user_region(&mut mem, root, 0x50_0000, 1, true), Some(vec![0x10_4000]));
    assert_eq!(mem.space(root).unwrap().user[3].flags, 7);
    assert_eq!(phys_to_virt(&mem, 0x10_2000), Some(2));
    assert_eq!(phys_to_virt(&mem, 0x10_5000), None);
}

#[test]
fn mapping_fails_when_the_frames_run_out_and_keeps_what_it_built() {
    let mut mem = memory(3);
    let root = create_user_pml4(&mut mem).unwrap();
    assert_eq!(map_user_region(&mut mem, root, 0x40_0000, 4096 * 3, true), None);
    assert_eq!(mem.frames_used(), 3);
    assert_eq!(mem.space(root).unwrap().user.len(), 2);
    assert_eq!(map_user_region(&mut mem, root, 0x80_0000, 1, true), None);
}

#[test]
fn mapping_a_mapped_page_fails_and_loses_a_frame() {
    let mut mem = memory(8);
    let root = create_user_pml4(&mut mem).unwrap();
    map_user_region(&mut mem, root, 0x40_1000, 4096, true).unwrap();
    assert_eq!(map_user_region(&mut mem, root, 0x40_0000, 4096 * 3, true), None);
    assert_eq!(mem.frames_used(), 4);
    let user = &mem.space(root).unwrap().user;
    assert_eq!(user.len(), 2);
    assert_eq!(user[1], Mapping { page: 0x40_0000, frame: 0x10_2000, flags: 7 });
}

#[test]
fn mapping_outside_the_lower_half_fails() {
    let mut mem = memory(8);
    let root = create_user_pml4(&mut mem).unwrap();
    assert_eq!(map_user_region(&mut mem, root, 0x8000_0000_0000, 1, true), None);
    assert_eq!(map_user_region(&mut mem, root, 0xffff_8000_0000_0000, 1, true), None);
    assert_eq!(mem.frames_used(), 1);
    assert_eq!(map_user_region(&mut mem, root, 0x7fff_ffff_f000, 4097, true), None);
    assert_eq!(mem.frames_used(), 2);
    assert_eq!(mem.space(root).unwrap().user.len(), 1);
    assert_eq!(map_user_region(&mut mem, 0xdead_0000, 0x1000, 1, true), None);
}

#[test]
fn a_stack_ends_at_its_top() {
    let mut mem = memory(16);
    let root = create_user_pml4(&mut mem).unwrap();
    let top = 0x0000_7fff_ffff_f000u64;
    assert_eq!(map_user_stack(&mut mem, root, top, 8), Some(top));
    let user = &mem.space(root).unwrap().user;
    assert_eq!(user.len(), 8);
    assert_eq!(user[0].page, top - 8 * 4096);
    assert_eq!(user[7].page, top - 4096);
    assert!(user.iter().all(|m| m.flags == 7));
    assert_eq!(map_user_stack(&mut mem, root, 0x3000, 4), None);
    assert_eq!(map_user_stack(&mut mem, root, top, usize::MAX), None);
    assert_eq!(map_user_stack(&mut mem, 0xbad, top, 1), None);
    assert_eq!(mem.frames_used(), 9);
}

#[test]
fn a_frame_is_filled_with_bytes_and_zeros() {
    let mut mem = memory(4);
    let root = create_user_pml4(&mut mem).unwrap();
    map_user_region(&mut mem, root, 0x1000, 1, true).unwrap();
    let src: Vec<u8> = (0..100u8).collect();
    copy_to_frame(&mut mem, 1, &src, 10, 20);
    let page = mem.frame_bytes(1).unwrap();
    assert_eq!(&page[..20], &src[10..30]);
    assert!(page[20..].iter().all(|&b| b == 0));
    assert_eq!(page.len(), 4096);
    assert_eq!(mem.frame_bytes(0).unwrap(), &vec![0u8; 4096]);
}

#[test]
fn a_user_page_is_present_and_user_accessible() {
    assert_eq!(waemom::mm::user_flags(false), 0b101);
    assert_eq!(waemom::mm::user_flags(true), 0b111);
}
