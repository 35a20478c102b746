use waemom::elf::{gen_hex, hex2, hex_table, inspect_elf64};
use waemom::elfloader::{map_into_cr3, parse_elf, read_u16, read_u32, read_u64};
use waemom::mm::{create_user_pml4, init, Memory, MemoryRegion};

fn header(entry: u64, phoff: u64, phentsize: u16, phnum: u16) -> Vec<u8> {
    let mut h = vec![0u8; 64];
    h[0..4].copy_from_slice(&[0x7f, b'E', b'L', b'F']);
    h[4] = 2;
    h[24..32].copy_from_slice(&entry.to_le_bytes());
    h[32..40].copy_from_slice(&phoff.to_le_bytes());
    h[54..56].copy_from_slice(&phentsize.to_le_bytes());
    h[56..58].copy_from_slice(&phnum.to_le_bytes());
    h
}

fn program_header(p_type: u32, offset: u64, vaddr: u64, filesz: u64) -> Vec<u8> {
    let mut p = vec![0u8; 56];
    p[0..4].copy_from_slice(&p_type.to_le_bytes());
    p[8..16].copy_from_slice(&offset.to_le_bytes());
    p[16..24].copy_from_slice(&vaddr.to_le_bytes());
    p[32..40].copy_from_slice(&filesz.to_le_bytes());
    p[40..48].copy_from_slice(&(filesz + 0x5000).to_le_bytes());
    p
}

fn image(segments: &[(u32, u64, Vec<u8>)]) -> Vec<u8> {
    let mut file = header(0x40_1000, 64, 56, segments.len() as u16);
    let mut at = 64 + 56 * segments.len() as u64;
    for (p_type, vaddr, data) in segments {
        file.extend(program_header(*p_type, at, *vaddr, data.len() as u64));
        at += data.len() as u64;
    }
    for (_, _, data) in segments {
        file.extend(data);
    }
    file
}

fn memory(frames: u64) -> Memory {
    init(&vec![MemoryRegion { start: 0x20_0000, end: 0x20_0000 + frames * 4096, usable: true }], 0x1000, vec![7; 256])
}

#[test]
fn parsing_rejects_a_short_input() {
    assert!(parse_elf(&[]).is_none());
    assert!(parse_elf(&[0x7f, b'E', b'L', b'F']).is_none());
    let h = header(0, 0, 0, 0);
    assert!(parse_elf(&h[..63]).is_none());
    assert!(parse_elf(&h).is_some());
}

#[test]
fn parsing_rejects_a_wrong_magic() {
    for i in 0..4 {
        let mut h = header(0, 0, 0, 0);
        h[i] ^= 1;
        assert!(parse_elf(&h).is_none());
    }
}

#[test]
fn parsing_rejects_the_32_bit_class() {
    let mut h = header(0, 0, 0, 0);
    h[4] = 1;
    assert!(parse_elf(&h).is_none());
    h[4] = 0;
    assert!(parse_elf(&h).is_none());
    h[4] = 3;
    assert!(parse_elf(&h).is_none());
}

#[test]
fn parsing_keeps_the_loadable_segments_in_order() {
    let file = image(&[(1, 0x40_0000, vec![1, 2, 3]), (4, 0x50_0000, vec![9; 5]), (1, 0x60_0000, vec![]), (1, 0x70_0000, vec![4; 7])]);
    let img = parse_elf(&file).unwrap();
    assert_eq!(img.entry, 0x40_1000);
    let segs: Vec<(&[u8], u64)> = img.segments.iter().cloned().collect();
    assert_eq!(segs, vec![(&[1u8, 2, 3][..], 0x40_0000), (&[][..], 0x60_0000), (&[4u8; 7][..], 0x70_0000)]);
}

#[test]
fn parsing_drops_segments_after_the_sixteenth() {
    let segments: Vec<(u32, u64, Vec<u8>)> = (0..20).map(|i| (1, 0x1000 * i as u64, vec![i as u8])).collect();
    let file = image(&segments);
    let img = parse_elf(&file).unwrap();
    assert_eq!(img.segments.len(), 16);
    assert_eq!(img.segments[15], (&[15u8][..], 0xf000));
    assert_eq!(img.segments[0], (&[0u8][..], 0));
}

#[test]
fn parsing_rejects_headers_and_segments_outside_the_file() {
    assert!(parse_elf(&header(0, 64, 56, 1)).is_none());
    assert!(parse_elf(&header(0, u64::MAX, 56, 1)).is_none());
    assert!(parse_elf(&header(0, u64::MAX, 0xffff, 0xffff)).is_none());
    let mut file = image(&[(1, 0x1000, vec![5; 10])]);
    assert!(parse_elf(&file).is_some());
    file.pop();
    assert!(parse_elf(&file).is_none());
    let mut short = header(0, 64, 56, 1);
    short.extend(&program_header(4, 0, 0, 0)[..4]);
    assert!(parse_elf(&short).is_some());
    let mut cut = header(0, 64, 56, 1);
    cut.extend(&program_header(1, 0, 0, 0)[..39]);
    assert!(parse_elf(&cut).is_none());
    let mut far = header(0, 64, 56, 1);
    far.extend(program_header(1, u64::MAX, 0, 2));
    assert!(parse_elf(&far).is_none());
}

#[test]
fn ten_bytes_take_one_page_with_zeros_after_them() {
    let data: Vec<u8> = (1..=10).collect();
    let file = image(&[(1, 0x40_0000, data.clone())]);
    let img = parse_elf(&file).unwrap();
    let mut mem = memory(8);
    let root = create_user_pml4(&mut mem).unwrap();
    assert!(map_into_cr3(&mut mem, root, &img));
    let user = &mem.space(root).unwrap().user;
    assert_eq!(user.len(), 1);
    assert_eq!((user[0].page, user[0].frame, user[0].flags), (0x40_0000, 0x20_1000, 7));
    assert_eq!(mem.frames_used(), 2);
    let page = mem.frame_bytes(1).unwrap();
    assert_eq!(page.len(), 4096);
    assert_eq!(&page[..10], &data[..]);
    assert_eq!(page[10..].iter().filter(|&&b| b == 0).count(), 4086);
}

#[test]
fn a_segment_takes_its_size_rounded_up_to_pages() {
    for size in [0usize, 1, 4095, 4096, 4097, 10000] {
        let data: Vec<u8> = (0..size).map(|i| (i % 251) as u8 + 1).collect();
        let file = image(&[(1, 0x40_0000, data.clone())]);
        let img = parse_elf(&file).unwrap();
        let mut mem = memory(8);
        let root = create_user_pml4(&mut mem).unwrap();
        assert!(map_into_cr3(&mut mem, root, &img));
        let pages = (size + 4095) / 4096;
        assert_eq!(mem.space(root).unwrap().user.len(), pages);
        assert_eq!(mem.frames_used(), 1 + pages);
        let mut loaded: Vec<u8> = Vec::new();
        for k in 0..pages {
            loaded.extend(mem.frame_bytes(1 + k).unwrap());
        }
        assert_eq!(&loaded[..size], &data[..]);
        assert!(loaded[size..].iter().all(|&b| b == 0));
    }
}

#[test]
fn loading_fails_at_the_first_segment_that_does_not_fit() {
    let file = image(&[(1, 0x40_0000, vec![1; 4096]), (1, 0x50_0000, vec![2; 3 * 4096]), (1, 0x60_0000, vec![3; 1])]);
    let img = parse_elf(&file).unwrap();
    let mut mem = memory(4);
    let root = create_user_pml4(&mut mem).unwrap();
    assert!(!map_into_cr3(&mut mem, root, &img));
    assert_eq!(mem.frames_used(), 4);
    assert_eq!(mem.frame_bytes(1).unwrap(), &vec![1u8; 4096]);
    assert_eq!(mem.space(root).unwrap().user.len(), 3);
    let mut other = memory(4);
    assert!(!map_into_cr3(&mut other, 0x9999, &img));
    let empty = header(0, 0, 0, 0);
    assert!(map_into_cr3(&mut other, 0x9999, &parse_elf(&empty).unwrap()));
}

#[test]
fn little_endian_numbers_are_read() {
    let b = [0x01, 0x02, 0x03, 0x04, 0x05, 0x06, 0x07, 0x08, 0x09];
    assert_eq!(read_u16(&b, 1), 0x0302);
    assert_eq!(read_u32(&b, 0), 0x04030201);
    assert_eq!(read_u64(&b, 1), 0x0908070605040302);
    assert_eq!(read_u64(&[0xff; 8], 0), u64::MAX);
}

#[test]
fn the_inspector_describes_a_header() {
    assert_eq!(inspect_elf64(&[0; 63]), "Not ELF64: too small\n");
    assert_eq!(inspect_elf64(&[0; 64]), "Not ELF magic\n");
    let mut h = header(0x40_1000, 64, 56, 3);
    h[4] = 1;
    assert_eq!(inspect_elf64(&h), "Not 64-bit ELF\n");
    h[4] = 2;
    h[16] = 2;
    h[18] = 0x3e;
    assert_eq!(
        inspect_elf64(&h),
        "ELF64 detected\nOSABI: System V (often Linux)\nType: 0x2, Machine: 0x3e\nEntry: 0x0000000000401000\nPH num: 3 size: 56 off: 64\n"
    );
    h[7] = 3;
    assert!(inspect_elf64(&h).starts_with("ELF64 detected\nOSABI: Linux\n"));
    h[7] = 9;
    h[24..32].copy_from_slice(&u64::MAX.to_le_bytes());
    assert_eq!(
        inspect_elf64(&h),
        "ELF64 detected\nOSABI: other 0x09\nType: 0x2, Machine: 0x3e\nEntry: 0xffffffffffffffff\nPH num: 3 size: 56 off: 64\n"
    );
}

#[test]
fn bytes_are_written_as_two_hexadecimal_digits() {
    assert_eq!(hex2(0), "00");
    assert_eq!(hex2(0x0a), "0a");
    assert_eq!(hex2(0xff), "ff");
    let table = gen_hex();
    assert_eq!(table.len(), 256);
    assert_eq!(table[0x5c], "5c");
    assert_eq!(hex_table(), table);
}
