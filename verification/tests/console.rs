use waemom::console::{clear, handle_command, on_char, Console};
use waemom::fs::Assets;
use waemom::kernel::{boot, Entries, Kernel};
use waemom::keyboard::{on_scancode, DecodedKey};
use waemom::mm::MemoryRegion;
use waemom::shell::{handle_cmd, shell_task};
use waemom::task::State;
use waemom::tty::{read_char, read_line, write_char, Line, Tty};

fn kernel() -> Kernel {
    let assets = Assets { hello: b"not a program", lock: b"", index_html: b"", app_js: b"", styles_css: b"" };
    let entries = Entries { idle: 0x100, shell: 0x200, kthread: 0x300, user_trampoline: 0x400 };
    let regions = vec![MemoryRegion { start: 0x20_0000, end: 0x24_0000, usable: true }];
    boot(0x10_0000, 512 * 1024, entries, &regions, 0x1000, vec![5; 256], &assets)
}

fn type_line(k: &mut Kernel, line: &str) {
    for c in line.chars() {
        on_char(k, c);
    }
    on_char(k, '\n');
}

#[test]
fn printing_appends_a_line() {
    let mut c = Console::new();
    waemom::console::println(&mut c, "one");
    waemom::console::println(&mut c, "");
    waemom::console::println(&mut c, "two");
    assert_eq!(c.output(), "one\n\ntwo\n");
    assert_eq!(c.input(), "");
    clear(&mut c);
    assert_eq!(c.output(), "");
}

#[test]
fn the_line_feed_is_dropped_where_only_the_text_fits() {
    let mut c = Console::new();
    waemom::console::println(&mut c, &"a".repeat(512));
    assert_eq!(c.output(), "a".repeat(512));
    waemom::console::println(&mut c, "b");
    assert_eq!(c.output().len(), 512);
    let mut d = Console::new();
    waemom::console::println(&mut d, &"é".repeat(256));
    assert_eq!(d.output(), "é".repeat(256));
    let mut e = Console::new();
    waemom::console::println(&mut e, &"é".repeat(257));
    assert_eq!(e.output(), "\n");
}

#[test]
fn typed_characters_build_the_line() {
    let mut k = kernel();
    for c in "helxy".chars() {
        on_char(&mut k, c);
    }
    on_char(&mut k, '\u{8}');
    on_char(&mut k, '\u{8}');
    on_char(&mut k, 'p');
    assert_eq!(k.console.input(), "help");
    assert_eq!(k.console.output(), "");
    for _ in 0..10 {
        on_char(&mut k, '\u{8}');
    }
    assert_eq!(k.console.input(), "");
    for _ in 0..200 {
        on_char(&mut k, 'z');
    }
    assert_eq!(k.console.input(), "z".repeat(128));
    on_char(&mut k, 'é');
    assert_eq!(k.console.input().len(), 128);
}

#[test]
fn the_console_answers_its_commands() {
    let mut k = kernel();
    type_line(&mut k, "  hello ");
    assert_eq!(k.console.output(), "> hello\nHello!\n");
    assert_eq!(k.console.input(), "");
    type_line(&mut k, "what");
    assert_eq!(k.console.output(), "> hello\nHello!\n\n> what\nUnknown command\n");
    type_line(&mut k, "clear");
    assert_eq!(k.console.output(), "");
    on_char(&mut k, '\r');
    assert_eq!(k.console.output(), "> \n");
    type_line(&mut k, "uptime");
    assert_eq!(k.console.output(), "> \n\n> uptime\n00:00:00\n");
}

#[test]
fn the_console_sleeps_and_spawns() {
    let mut k = kernel();
    type_line(&mut k, "sleep 250");
    assert_eq!(k.sched.state_of(0), Some(State::Sleeping(2)));
    assert_eq!(k.console.output(), "> sleep 250\n(sleep requested)\n");
    type_line(&mut k, "clear");
    type_line(&mut k, "sleep soon");
    assert_eq!(k.console.output(), "> sleep soon\n");
    type_line(&mut k, "clear");
    type_line(&mut k, "spawn   worker ");
    assert_eq!(k.console.output(), "> spawn   worker\n(spawn requested)\n");
    assert_eq!(k.sched.task_count(), 3);
    assert_eq!(k.sched.task(2).unwrap().name(), "worker");
    assert_eq!(k.sched.task(2).unwrap().ctx.rip, 0x300);
    type_line(&mut k, "clear");
    type_line(&mut k, "sleep");
    assert_eq!(k.console.output(), "> sleep\nUnknown command\n");
    handle_command(&mut k);
    assert_eq!(k.console.output(), "> sleep\nUnknown command\n\n> \n");
}

#[test]
fn the_shell_answers_its_commands() {
    let mut k = kernel();
    handle_cmd(&mut k, " hello\n");
    handle_cmd(&mut k, "");
    handle_cmd(&mut k, "bogus");
    handle_cmd(&mut k, "uptime");
    assert_eq!(k.console.output(), "Hello!\nUnknown\n00:00:00\n");
    handle_cmd(&mut k, "clear");
    assert_eq!(k.console.output(), "");
    handle_cmd(&mut k, "sleep 100 ");
    assert_eq!(k.sched.state_of(0), Some(State::Sleeping(1)));
    handle_cmd(&mut k, "sleep x");
    handle_cmd(&mut k, "spawn  me");
    assert_eq!(k.sched.task(2).unwrap().name(), " me");
    handle_cmd(&mut k, "run /bin/none");
    handle_cmd(&mut k, "run /bin/hello");
    assert_eq!(k.sched.task_count(), 3);
    assert_eq!(k.console.output(), "(sleep)\n(spawn)\n(run)\n(run)\n");
}

#[test]
fn the_terminal_queues_up_to_255_characters() {
    let mut t = Tty::new();
    assert_eq!(read_char(&mut t), None);
    for i in 0..300u32 {
        write_char(&mut t, char::from_u32('a' as u32 + i % 26).unwrap());
    }
    let mut got = String::new();
    while let Some(c) = read_char(&mut t) {
        got.push(c);
    }
    assert_eq!(got.len(), 255);
    assert!(got.starts_with("abcdefghijklmnopqrstuvwxyzab"));
    write_char(&mut t, 'q');
    assert_eq!(read_char(&mut t), Some('q'));
}

#[test]
fn a_line_is_read_up_to_its_end() {
    let mut t = Tty::new();
    let mut line = Line::new();
    for c in "ab\u{8}c".chars() {
        write_char(&mut t, c);
    }
    assert!(!read_line(&mut t, &mut line));
    assert_eq!(line.as_str(), "ac");
    for c in "d\re\n".chars() {
        write_char(&mut t, c);
    }
    assert!(read_line(&mut t, &mut line));
    assert_eq!(line.as_str(), "acd");
    assert_eq!(read_char(&mut t), Some('e'));
    line.clear();
    assert!(read_line(&mut t, &mut line));
    assert_eq!(line.as_str(), "");
    for _ in 0..5 {
        for _ in 0..100 {
            write_char(&mut t, 'x');
        }
        assert!(!read_line(&mut t, &mut line));
    }
    assert_eq!(line.as_str(), "x".repeat(256));
}

#[test]
fn decoded_characters_go_to_the_terminal() {
    let mut t = Tty::new();
    on_scancode(&mut t, Some(DecodedKey::Unicode('h')));
    on_scancode(&mut t, Some(DecodedKey::RawKey(3)));
    on_scancode(&mut t, None);
    on_scancode(&mut t, Some(DecodedKey::Unicode('i')));
    assert_eq!(read_char(&mut t), Some('h'));
    assert_eq!(read_char(&mut t), Some('i'));
    assert_eq!(read_char(&mut t), None);
}

#[test]
fn one_round_of_the_shell_runs_a_complete_line() {
    let mut k = kernel();
    let mut line = Line::new();
    for c in "hel".chars() {
        write_char(&mut k.tty, c);
    }
    assert!(!shell_task(&mut k, &mut line));
    assert_eq!(line.as_str(), "hel");
    for c in "lo\nup".chars() {
        write_char(&mut k.tty, c);
    }
    assert!(shell_task(&mut k, &mut line));
    assert_eq!(k.console.output(), "Hello!\n");
    assert_eq!(line.as_str(), "");
    assert!(!shell_task(&mut k, &mut line));
    assert_eq!(line.as_str(), "up");
}
