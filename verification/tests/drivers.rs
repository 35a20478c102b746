use waemom::ata::{poll, read_sector_lba28, Poll};
use waemom::fs::fat::{
    cluster_lba, fat_sector_of, in_chain, list_root, name_at, next_in_chain, read_bpb, read_chain_fat16, read_file_root_8_3,
    root_dir_lba, same_name, FileEntry,
};
use waemom::gdt::{init, Selectors};
use waemom::net::e1000::{enable_bus_master, init_rings, next_tx, E1000};

fn boot_sector() -> [u8; 512] {
    let mut b = [0u8; 512];
    b[11..13].copy_from_slice(&512u16.to_le_bytes());
    b[13] = 4;
    b[14..16].copy_from_slice(&1u16.to_le_bytes());
    b[16] = 2;
    b[17..19].copy_from_slice(&512u16.to_le_bytes());
    b[19..21].copy_from_slice(&20480u16.to_le_bytes());
    b[22..24].copy_from_slice(&20u16.to_le_bytes());
    b[510] = 0x55;
    b[511] = 0xaa;
    b
}

fn entry(b: &mut [u8; 512], i: usize, name: &[u8; 11], attr: u8, cluster: u32, size: u32) {
    let at = 32 * i;
    b[at..at + 11].copy_from_slice(name);
    b[at + 11] = attr;
    b[at + 20..at + 22].copy_from_slice(&((cluster >> 16) as u16).to_le_bytes());
    b[at + 26..at + 28].copy_from_slice(&(cluster as u16).to_le_bytes());
    b[at + 28..at + 32].copy_from_slice(&size.to_le_bytes());
}

fn directory() -> [u8; 512] {
    let mut b = [0u8; 512];
    entry(&mut b, 0, b"README  TXT", 0x20, 5, 1000);
    entry(&mut b, 1, b"\xe5LD     BIN", 0x20, 6, 1);
    entry(&mut b, 2, b"long name  ", 0x0f, 0, 0);
    entry(&mut b, 3, b"KERNEL     ", 0x20, 0x12_0007, 70000);
    entry(&mut b, 4, b"A B     C  ", 0x10, 9, 0);
    entry(&mut b, 6, b"HIDDEN  TXT", 0x20, 10, 1);
    b
}

#[test]
fn the_layout_is_read_from_the_boot_sector() {
    let bpb = read_bpb(&boot_sector()).unwrap();
    assert_eq!((bpb.bps, bpb.spc, bpb.rsv, bpb.nfats, bpb.fatsz), (512, 4, 1, 2, 20));
    assert_eq!((bpb.root_entries, bpb.total_sectors, bpb.fat_start), (512, 20480, 1));
    assert_eq!((bpb.root_dir_sectors, bpb.first_data, bpb.fat_bits), (32, 73, 16));
    assert_eq!(root_dir_lba(&bpb), Some(41));
    let mut wide = boot_sector();
    wide[19..21].copy_from_slice(&[0, 0]);
    wide[22..24].copy_from_slice(&[0, 0]);
    wide[32..36].copy_from_slice(&100_000u32.to_le_bytes());
    wide[36..40].copy_from_slice(&300u32.to_le_bytes());
    let bpb = read_bpb(&wide).unwrap();
    assert_eq!((bpb.total_sectors, bpb.fatsz, bpb.fat_bits, bpb.first_data), (100_000, 300, 32, 633));
}

#[test]
fn a_boot_sector_without_signature_is_rejected() {
    let mut b = boot_sector();
    b[510] = 0;
    assert_eq!(read_bpb(&b), None);
    let mut c = boot_sector();
    c[511] = 0x55;
    assert_eq!(read_bpb(&c), None);
    let mut zero = boot_sector();
    zero[11..13].copy_from_slice(&[0, 0]);
    assert_eq!(read_bpb(&zero), None);
    let mut far = boot_sector();
    far[16] = 255;
    far[22..24].copy_from_slice(&[0, 0]);
    far[36..40].copy_from_slice(&u32::MAX.to_le_bytes());
    assert_eq!(read_bpb(&far), None);
}

#[test]
fn the_root_directory_lists_its_files() {
    let dir = directory();
    assert_eq!(name_at(&dir, 0), "README.TXT");
    assert_eq!(name_at(&dir, 96), "KERNEL");
    assert_eq!(name_at(&dir, 128), "AB.C");
    assert_eq!(list_root(&vec![dir]), vec!["README.TXT", "KERNEL", "AB.C"]);
    let mut second = [0u8; 512];
    entry(&mut second, 0, b"NEXT    \xe9  ", 0, 1, 1);
    assert_eq!(list_root(&vec![dir, second]), vec!["README.TXT", "KERNEL", "AB.C", "NEXT.é"]);
    assert!(list_root(&vec![]).is_empty());
    let mut full = [0u8; 512];
    for i in 0..16 {
        entry(&mut full, i, b"F          ", 0, 1, 1);
    }
    assert_eq!(list_root(&vec![full; 40]).len(), 128);
    assert_eq!(list_root(&vec![full; 7]).len(), 112);
}

#[test]
fn a_file_is_found_by_its_name_in_any_case() {
    let dir = directory();
    assert_eq!(read_file_root_8_3(&dir, "readme.txt"), Some(FileEntry { first_cluster: 5, size: 1000 }));
    assert_eq!(read_file_root_8_3(&dir, "Kernel"), Some(FileEntry { first_cluster: 0x12_0007, size: 70000 }));
    assert_eq!(read_file_root_8_3(&dir, "HIDDEN.TXT"), None);
    assert_eq!(read_file_root_8_3(&dir, "OLD.BIN"), None);
    assert_eq!(read_file_root_8_3(&dir, ""), None);
    assert!(same_name("a.B", "A.b"));
    assert!(!same_name("a", "ab"));
    assert!(!same_name("é", "É"));
}

#[test]
fn a_chain_is_followed_through_the_table() {
    let mut fat = [0u8; 512];
    fat[10..12].copy_from_slice(&6u16.to_le_bytes());
    fat[12..14].copy_from_slice(&0xffffu16.to_le_bytes());
    fat[14..16].copy_from_slice(&0xfff7u16.to_le_bytes());
    assert_eq!(next_in_chain(&fat, 5, 512), Some(6));
    assert_eq!(next_in_chain(&fat, 6, 512), None);
    assert_eq!(next_in_chain(&fat, 7, 512), Some(0xfff7));
    assert_eq!(next_in_chain(&fat, 256 + 5, 512), Some(6));
    assert_eq!(fat_sector_of(1, 5, 512), 1);
    assert_eq!(fat_sector_of(1, 256, 512), 2);
    assert_eq!(fat_sector_of(u32::MAX, u32::MAX, 1), u32::MAX as u64 + 2 * u32::MAX as u64);
    assert_eq!(cluster_lba(73, 2), 73);
    assert_eq!(cluster_lba(73, 10), 81);
    assert!(in_chain(2) && in_chain(0xfff7));
    assert!(!in_chain(0) && !in_chain(1) && !in_chain(0xfff8) && !in_chain(u32::MAX));
}

#[test]
fn a_file_takes_what_it_lacks_from_a_sector() {
    let mut data = [0u8; 512];
    for (i, b) in data.iter_mut().enumerate() {
        *b = i as u8;
    }
    let mut out = vec![9u8];
    assert_eq!(read_chain_fat16(&mut out, &data, 600), 88);
    assert_eq!(out.len(), 513);
    assert_eq!(read_chain_fat16(&mut out, &data, 88), 0);
    assert_eq!(out.len(), 601);
    assert_eq!(&out[513..516], &[0, 1, 2]);
    assert_eq!(read_chain_fat16(&mut out, &data, 0), 0);
    assert_eq!(out.len(), 601);
}

#[test]
fn a_sector_is_asked_for_by_its_number() {
    assert_eq!(
        read_sector_lba28(0x0a12_3456),
        vec![(0x1f6, 0xea), (0x1f2, 1), (0x1f3, 0x56), (0x1f4, 0x34), (0x1f5, 0x12), (0x1f7, 0x20)]
    );
    assert_eq!(read_sector_lba28(u32::MAX)[0], (0x1f6, 0xef));
    assert_eq!(poll(0x08), Poll::Ready);
    assert_eq!(poll(0x09), Poll::Ready);
    assert_eq!(poll(0x01), Poll::Failed);
    assert_eq!(poll(0xf7), Poll::Failed);
    assert_eq!(poll(0x50), Poll::Wait);
}

#[test]
fn the_fast_call_gets_its_segments() {
    let s = Selectors { kcode: 0x08, kdata: 0x10, ucode: 0x18, udata: 0x20, tss_selector: 0x28 };
    let r = init(&s, 0xffff_8000_0010_0000);
    assert_eq!(r.star, (0x1bu64 << 48) | (0x08u64 << 32));
    assert_eq!((r.lstar, r.sfmask), (0xffff_8000_0010_0000, 0));
    let t = Selectors { ucode: 0x1b, kcode: 0xffff, ..s };
    assert_eq!(init(&t, 0).star, (0x1bu64 << 48) | (0xffffu64 << 32));
}

#[test]
fn the_network_card_is_set_up() {
    let e = E1000::init(0xfebc_000c, 0x1200_5452, 0xffff_5634);
    assert_eq!(e.regs, 0xfebc_0000);
    assert_eq!(e.mac, [0x52, 0x54, 0x00, 0x12, 0x34, 0x56]);
    assert!(e.send(2048) && e.send(0));
    assert!(!e.send(2049));
    assert_eq!(enable_bus_master(0x3), 0x7);
    assert_eq!(enable_bus_master(0x7), 0x7);
    assert_eq!(next_tx(0), 1);
    assert_eq!(next_tx(31), 0);
    let writes = init_rings(0x1_2345_6000, 0x7000);
    assert_eq!(writes.len(), 12);
    assert_eq!(&writes[..6], &[(0x2800, 0x2345_6000), (0x2804, 1), (0x2808, 512), (0x2810, 0), (0x2818, 31), (0x100, 0x16)]);
    assert_eq!(&writes[6..], &[(0x3800, 0x7000), (0x3804, 0), (0x3808, 512), (0x3810, 0), (0x3818, 0), (0x400, 0x400f2)]);
}

#[test]
fn packets_are_taken_up_to_the_head() {
    let e = E1000::init(0, 0, 0);
    let mut done = [false; 32];
    assert!(e.poll_rx(0, 31, &done).is_empty());
    done[0] = true;
    done[1] = true;
    done[3] = true;
    assert_eq!(e.poll_rx(5, 31, &done), vec![0, 1]);
    assert_eq!(e.poll_rx(1, 31, &done), vec![0]);
    assert!(e.poll_rx(0, 31, &done).is_empty());
    assert_eq!(e.poll_rx(31, 31, &[true; 32]), (0..31).collect::<Vec<usize>>());
    assert_eq!(e.poll_rx(2, 30, &[true; 32]), vec![31, 0, 1]);
}
