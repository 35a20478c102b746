use waemom::block::{words_to_bytes, AtaDevice};
use waemom::interrupts::{notify_end_of_interrupt, Handling, InterruptIndex, PIC_1_OFFSET, PIC_2_OFFSET};
use waemom::pci::{decode_device, enumerate, pci_config_address, PciDevice};
use waemom::pit::{format_uptime, init, tick, uptime_secs};
use waemom::heap::Bump;
use waemom::text::{
    chars_of, decimal_of, find_char, hex_of, parse_number, split_lines, split_words, starts_with, string_of, strip, to_lowered,
    trim,
};

#[test]
fn the_timer_is_programmed_with_its_divisor() {
    let (pit, setup) = init(100);
    assert_eq!((setup.command, setup.low, setup.high), (0x36, 0x9b, 0x2e));
    assert_eq!((pit.ticks(), pit.hz()), (0, 100));
    let (_, fast) = init(1193182);
    assert_eq!((fast.low, fast.high), (1, 0));
    let (_, slow) = init(18);
    assert_eq!((slow.low, slow.high), ((66287u32 % 65536 % 256) as u8, (66287u32 % 65536 / 256) as u8));
}

#[test]
fn the_uptime_counts_whole_seconds() {
    let mut heap = Bump::new();
    heap.init(0x1000, 1 << 20);
    let mut s = waemom::scheduler::init(&mut heap, 0, 0);
    let (mut pit, _) = init(100);
    for _ in 0..99 {
        tick(&mut pit, &mut s, 0);
    }
    assert_eq!(uptime_secs(&pit), 0);
    assert_eq!(format_uptime(&pit), "00:00:00");
    tick(&mut pit, &mut s, 0);
    assert_eq!((pit.ticks(), uptime_secs(&pit)), (100, 1));
    for _ in 0..6400 {
        tick(&mut pit, &mut s, 0);
    }
    assert_eq!(format_uptime(&pit), "00:01:05");
    assert_eq!(s.current(), Some(0));
}

#[test]
fn a_tick_runs_the_scheduler_at_the_new_uptime() {
    let mut heap = Bump::new();
    heap.init(0x1000, 1 << 20);
    let mut s = waemom::scheduler::init(&mut heap, 0, 0);
    waemom::scheduler::spawn_kernel(&mut s, &mut heap, "a", 0, 0);
    let (mut pit, _) = init(2);
    waemom::scheduler::sleep_current(&mut s, 0, 100);
    let sw = tick(&mut pit, &mut s, 0).unwrap();
    assert_eq!((sw.from, sw.to), (0, 1));
    assert_eq!(s.ready_queue(), Vec::<usize>::new());
    let sw = tick(&mut pit, &mut s, 0).unwrap();
    assert_eq!((sw.from, sw.to), (1, 0));
    assert_eq!(s.ready_queue(), vec![1]);
}

#[test]
fn long_uptimes_take_more_digits() {
    let mut heap = Bump::new();
    heap.init(0x1000, 1 << 20);
    let mut s = waemom::scheduler::init(&mut heap, 0, 0);
    let (mut pit, _) = init(1);
    for _ in 0..(100 * 3600 + 61) {
        tick(&mut pit, &mut s, 0);
    }
    assert_eq!(format_uptime(&pit), "100:01:01");
}

#[test]
fn the_interrupts_have_their_vectors() {
    assert_eq!((PIC_1_OFFSET, PIC_2_OFFSET), (32, 40));
    assert_eq!(InterruptIndex::Timer.as_u8(), 32);
    assert_eq!(InterruptIndex::Keyboard.as_u8(), 33);
    assert_eq!(InterruptIndex::Mouse.as_usize(), 44);
    assert_eq!(InterruptIndex::Syscall.as_usize(), 128);
    assert_eq!(notify_end_of_interrupt(InterruptIndex::Timer), (Handling::Tick, Some(32)));
    assert_eq!(notify_end_of_interrupt(InterruptIndex::Keyboard), (Handling::ReadKey, Some(33)));
    assert_eq!(notify_end_of_interrupt(InterruptIndex::Mouse), (Handling::ReadMouse, Some(44)));
    assert_eq!(notify_end_of_interrupt(InterruptIndex::Syscall), (Handling::Call, None));
}

#[test]
fn a_configuration_address_names_a_register() {
    assert_eq!(pci_config_address(0, 0, 0, 0), 0x8000_0000);
    assert_eq!(pci_config_address(1, 2, 3, 0x10), 0x8001_1310);
    assert_eq!(pci_config_address(255, 31, 7, 0xff), 0x80ff_fffc);
}

#[test]
fn devices_are_listed_in_bus_order() {
    assert_eq!(decode_device(0, 1, 2, 0xffff_ffff, 0x0200_0000), None);
    assert_eq!(
        decode_device(0, 1, 2, 0x100e_8086, 0x0200_1234),
        Some(PciDevice { bus: 0, slot: 1, func: 2, vendor: 0x8086, device: 0x100e, class: 2, subclass: 0 })
    );
    let mut regs = vec![(0xffff_ffffu32, 0u32); 65536];
    regs[8 * 3] = (0x100e_8086, 0x0200_0000);
    regs[256 * 2 + 8 * 31 + 7] = (0x1111_1af4, 0x0180_00ff);
    regs[65535] = (1, 0xff12_0000);
    let found = enumerate(&regs);
    assert_eq!(found.len(), 3);
    assert_eq!((found[0].bus, found[0].slot, found[0].func, found[0].vendor, found[0].class), (0, 3, 0, 0x8086, 2));
    assert_eq!((found[1].bus, found[1].slot, found[1].func, found[1].subclass), (2, 31, 7, 0x80));
    assert_eq!(found[2], PciDevice { bus: 255, slot: 31, func: 7, vendor: 1, device: 0, class: 0xff, subclass: 0x12 });
}

#[test]
fn a_sector_is_made_of_the_low_bytes_first() {
    let _disk = AtaDevice::new();
    let mut words = [0u16; 256];
    words[0] = 0x1234;
    words[255] = 0xaa55;
    let mut buf = [0xeeu8; 512];
    words_to_bytes(&words, &mut buf);
    assert_eq!(&buf[..3], &[0x34, 0x12, 0]);
    assert_eq!(&buf[510..], &[0x55, 0xaa]);
}

#[test]
fn numbers_are_written_and_read() {
    assert_eq!(string_of(&decimal_of(0)), "0");
    assert_eq!(string_of(&decimal_of(u64::MAX)), "18446744073709551615");
    assert_eq!(string_of(&hex_of(0xdead_beef)), "deadbeef");
    assert_eq!(string_of(&hex_of(0)), "0");
    assert_eq!(parse_number(&chars_of("0042"), 100), Some(42));
    assert_eq!(parse_number(&chars_of("+7"), 100), Some(7));
    assert_eq!(parse_number(&chars_of("101"), 100), None);
    assert_eq!(parse_number(&chars_of("100"), 100), Some(100));
    assert_eq!(parse_number(&chars_of("18446744073709551615"), u64::MAX), Some(u64::MAX));
    assert_eq!(parse_number(&chars_of("18446744073709551616"), u64::MAX), None);
    for bad in ["", "+", "-1", "1 ", "٣", "1_0", "++1"] {
        assert_eq!(parse_number(&chars_of(bad), u64::MAX), None);
    }
}

#[test]
fn texts_are_taken_apart() {
    assert_eq!(string_of(&trim(&chars_of(" \t\u{3000}a b\u{a0}\r\n"))), "a b");
    assert_eq!(string_of(&trim(&chars_of(" \n "))), "");
    assert_eq!(string_of(&strip(&chars_of("[[x]y]]"), '[', ']')), "x]y");
    assert_eq!(string_of(&strip(&chars_of("\"\""), '"', '"')), "");
    let words: Vec<String> = split_words(&chars_of("  one\ttwo\n\nthree ")).iter().map(string_of).collect();
    assert_eq!(words, vec!["one", "two", "three"]);
    let lines: Vec<String> = split_lines(&chars_of("a\n\nb\n")).iter().map(string_of).collect();
    assert_eq!(lines, vec!["a", "", "b", ""]);
    assert_eq!(find_char(&chars_of("key=value=x"), '='), 3);
    assert_eq!(find_char(&chars_of("none"), '='), 4);
    assert_eq!(string_of(&to_lowered(&chars_of("MiXeD ÄZ09"))), "mixed Äz09");
    assert!(starts_with(&chars_of("sleep 5"), "sleep "));
    assert!(!starts_with(&chars_of("slee"), "sleep "));
    assert!(starts_with(&chars_of("x"), ""));
}
