use waemom::appmgr::{list, set_state, spawn, App, WindowState};
use waemom::apps::broom::{join_lines, read_lines, url_encode, Broom};
use waemom::apps::network::{connect_default, ip_to_string};
use waemom::apps::taskmgr::TaskInfo;
use waemom::apps::{about, files, notes};
use waemom::fs::memfs::MemFs;
use waemom::net::wifi::{connect, current_ssid, scan, Wifi};
use waemom::net::{enable_encryption, ip, is_encrypted, set_ip, set_ssid, ssid, NetConfig};
use waemom::settings::{current, load_from_lock, parse_bool, Settings};

#[test]
fn the_default_settings_switch_everything_on() {
    let s = Settings::default();
    assert!(s.elf_enabled && s.linux_mode && s.web_enabled && s.icons_enabled && s.animations_enabled && s.loading_animations);
    assert_eq!((s.elf_max_bytes, s.font_scale, s.language.as_str()), (4096, 1, "en-US"));
}

#[test]
fn a_lock_file_sets_the_keys_of_its_sections() {
    let mut s = Settings::default();
    load_from_lock(
        &mut s,
        "# comment\n[elf]\nenabled = no\n max_bytes=  +123 \r\n\n[linux]\nmode=OFF\n[web]\nenabled=0\n[ui]\nlanguage = \"de-DE\"\nfont_scale=3\nicons=False\nanimations=off\nloading_animations=nope\nunknown=1\n",
    );
    assert!(!s.elf_enabled && !s.linux_mode && !s.web_enabled && !s.icons_enabled && !s.animations_enabled);
    assert!(s.loading_animations);
    assert_eq!((s.elf_max_bytes, s.font_scale, s.language.as_str()), (123, 3, "de-DE"));
    let copy = current(&s);
    assert_eq!(copy.language, "de-DE");
    assert_eq!(copy.font_scale, 3);
}

#[test]
fn a_lock_file_keeps_what_it_does_not_set() {
    let mut s = Settings::default();
    load_from_lock(&mut s, "enabled=off\n[[ui]]]\nfont_scale = many\nfont_scale\nlanguage=\"\"x\"\n[elf\nenabled=off\n[nothing]\nmode=off");
    assert!(s.elf_enabled && s.linux_mode);
    assert_eq!(s.font_scale, 1);
    assert_eq!(s.language, "x");
    load_from_lock(&mut s, "");
    load_from_lock(&mut s, "[ui]\nfont_scale=18446744073709551616\nlanguage = fr = CA \n[elf]\nmax_bytes=0");
    assert_eq!(s.font_scale, 1);
    assert_eq!(s.language, "fr = CA");
    assert_eq!(s.elf_max_bytes, 0);
}

#[test]
fn a_word_is_read_as_a_switch() {
    for on in ["true", "TRUE", "1", "yes", "On"] {
        assert!(parse_bool(on, false));
    }
    for off in ["false", "0", "No", "OFF"] {
        assert!(!parse_bool(off, true));
    }
    for other in ["", " true", "2", "ÿes"] {
        assert!(parse_bool(other, true));
        assert!(!parse_bool(other, false));
    }
}

#[test]
fn the_settings_window_lists_every_setting() {
    let mut s = Settings::default();
    s.linux_mode = false;
    s.elf_enabled = false;
    s.font_scale = 12;
    assert_eq!(
        waemom::apps::settings::view(&s),
        "System Settings\n\nELF inspector: disabled\nELF max bytes: 4096\nLinux mode: off\nWeb viewer: on\n\nUI\nLanguage: en-US\nFont scale: 12\nIcons: on\nAnimations: on\nLoading animations: on\n"
    );
}

#[test]
fn the_task_manager_shows_its_columns() {
    let tasks = vec![
        TaskInfo { pid: 1, name: "Notes".to_string(), state: "running" },
        TaskInfo { pid: 1234567, name: "a very long name".to_string(), state: "x" },
        TaskInfo { pid: 0, name: "héé".to_string(), state: "" },
    ];
    assert_eq!(
        waemom::apps::taskmgr::view(&tasks),
        "Task Manager\n\nPID    NAME         STATE\n1      Notes        running\n1234567 a very long name x\n0      héé          \n"
    );
    assert_eq!(waemom::apps::taskmgr::view(&vec![]), "Task Manager\n\nPID    NAME         STATE\n");
}

#[test]
fn the_plain_windows_have_their_texts() {
    assert_eq!(notes(), "Notes\n- Welcome to waemom\n- Demo UI with dock, topbar, and animated windows\n");
    assert_eq!(about(), "About waemom\nA tiny hobby OS kernel demo.\n");
    assert_eq!(files(&vec!["a.txt".to_string(), "etc".to_string()]), "Files\n- a.txt\n- etc\n");
    assert_eq!(files(&vec![]), "Files\n");
}

#[test]
fn the_web_viewers_show_their_files() {
    let mut fs = Some(MemFs::new_dir("/"));
    assert_eq!(waemom::apps::web::view_html(&fs), "HTML Viewer\n\n/www/index.html not found");
    assert_eq!(waemom::apps::web::view_js(&None), "JS Viewer\n\n/www/app.js not found");
    waemom::fs::write(&mut fs, "/www/index.html", b"<p>hi</p>").unwrap();
    waemom::fs::write(&mut fs, "/www/styles.css", &[0xc3]).unwrap();
    assert_eq!(waemom::apps::web::view_html(&fs), "HTML Viewer\n\n<p>hi</p>");
    assert_eq!(waemom::apps::web::view_css(&fs), "CSS Viewer\n\n<utf8 error>");
}

#[test]
fn the_network_settings_are_set_and_read() {
    let mut net = NetConfig::new();
    assert_eq!((ssid(&net), ip(&net), is_encrypted(&net)), (None, None, false));
    set_ssid(&mut net, "home");
    set_ip(&mut net, [10, 0, 2, 15]);
    enable_encryption(&mut net, true);
    assert_eq!((ssid(&net), ip(&net), is_encrypted(&net)), (Some("home".to_string()), Some([10, 0, 2, 15]), true));
    enable_encryption(&mut net, false);
    assert!(!is_encrypted(&net));
    assert_eq!(ip_to_string([192, 168, 0, 255]), "192.168.0.255");
}

#[test]
fn connecting_takes_the_name_and_encrypts() {
    let mut wifi = Wifi::new();
    let mut net = NetConfig::new();
    assert_eq!(current_ssid(&wifi), None);
    assert!(connect(&mut wifi, &mut net, "lab", "secret"));
    assert_eq!(current_ssid(&wifi), Some("lab"));
    assert_eq!(ssid(&net), Some("lab".to_string()));
    assert!(is_encrypted(&net));
    assert_eq!(ip(&net), None);
    connect_default(&mut wifi, &mut net);
    assert_eq!(current_ssid(&wifi), Some("waemom-net"));
    let found = scan();
    let seen: Vec<(&str, u8)> = found.iter().map(|n| (n.ssid, n.strength)).collect();
    assert_eq!(seen, vec![("waemom-net", 4), ("guest", 2), ("lab", 3)]);
}

#[test]
fn the_network_window_shows_the_state() {
    let mut net = NetConfig::new();
    assert_eq!(
        waemom::apps::network::view(&net, None),
        "Network\n\nSSID: <not connected>\nIP: 0.0.0.0\nEncryption: off\n\nAvailable Wi\u{2011}Fi:\n- waemom-net (4 bars)\n- guest (2 bars)\n- lab (3 bars)\n"
    );
    set_ssid(&mut net, "lab");
    set_ip(&mut net, [1, 2, 3, 4]);
    enable_encryption(&mut net, true);
    assert_eq!(
        waemom::apps::network::view(&net, Some([0x52, 0x54, 0, 0x12, 0xa, 0xff])),
        "Network\n\nSSID: lab\nIP: 1.2.3.4\nEncryption: on\ne1000 MAC: 52:54:00:12:0a:ff\n\nAvailable Wi\u{2011}Fi:\n- waemom-net (4 bars)\n- guest (2 bars)\n- lab (3 bars)\n"
    );
}

#[test]
fn applications_are_registered_with_rising_identifiers() {
    let mut apps: Vec<App> = Vec::new();
    assert_eq!(spawn(&mut apps, "Notes", 1, 2, 3, 4, None, "text".to_string()), 1);
    assert_eq!(spawn(&mut apps, "Files", 5, 6, 7, 8, None, String::new()), 2);
    assert_eq!(apps[0].state, WindowState::Normal);
    set_state(&mut apps, 2, WindowState::Maximized);
    set_state(&mut apps, 7, WindowState::Closed);
    assert_eq!((apps[0].state, apps[1].state), (WindowState::Normal, WindowState::Maximized));
    apps[1].id = 1;
    set_state(&mut apps, 1, WindowState::Minimized);
    assert_eq!((apps[0].state, apps[1].state), (WindowState::Minimized, WindowState::Maximized));
    let copy = list(&apps);
    assert_eq!(copy.len(), 2);
    assert_eq!((copy[0].name, copy[0].x, copy[0].h, copy[0].body.as_str()), ("Notes", 1, 4, "text"));
    assert_eq!(copy[1].state, WindowState::Maximized);
}

#[test]
fn an_address_is_encoded() {
    assert_eq!(url_encode("waemom os"), "waemom+os");
    assert_eq!(url_encode("a-b_c.d~e/f?g=h&ä"), "a-b_c.d~e%2Ff%3Fg%3Dh%26%C3%A4");
    assert_eq!(url_encode(""), "");
    assert_eq!(url_encode("\n\u{7f}"), "%0A%7F");
}

#[test]
fn lines_are_read_from_a_file() {
    let mut fs = Some(MemFs::new_dir("/"));
    waemom::fs::write(&mut fs, "/a", b"one\r\ntwo\n\nthree\r").unwrap();
    waemom::fs::write(&mut fs, "/b", b"x\n").unwrap();
    waemom::fs::write(&mut fs, "/c", b"").unwrap();
    waemom::fs::write(&mut fs, "/d", &[0xff, b'\n']).unwrap();
    assert_eq!(read_lines(&fs, "/a"), vec!["one", "two", "", "three\r"]);
    assert_eq!(read_lines(&fs, "/b"), vec!["x"]);
    assert!(read_lines(&fs, "/c").is_empty());
    assert!(read_lines(&fs, "/d").is_empty());
    assert!(read_lines(&fs, "/none").is_empty());
    assert_eq!(join_lines(&vec!["a".to_string(), "".to_string(), "b".to_string()]), "a\n\nb");
    assert_eq!(join_lines(&vec![]), "");
}

#[test]
fn the_browser_keeps_its_history_in_a_file() {
    let mut fs = Some(MemFs::new_dir("/"));
    waemom::fs::write(&mut fs, "/home/broom/bookmarks.txt", b"about:blank\nfile:///notes\n").unwrap();
    waemom::fs::write(&mut fs, "/notes", b"remember").unwrap();
    let mut b = Broom::load(&fs);
    assert_eq!(b.current_url, "about:blank");
    assert!(b.history.is_empty());
    assert_eq!(b.bookmarks, vec!["about:blank", "file:///notes"]);
    assert_eq!(b.view(&fs), "Broom\nURL: about:blank\n\nabout:blank\nType a query in code to search.\n");
    b.search_google(&mut fs, "waemom os");
    assert_eq!(b.current_url, "https://www.google.com/search?q=waemom+os");
    assert_eq!(
        b.view(&fs),
        "Broom\nURL: https://www.google.com/search?q=waemom+os\n\nGoogle search URL generated.\nNetworking not available in this demo kernel.\n"
    );
    b.open(&mut fs, "file:///notes");
    assert_eq!(b.view(&fs), "Broom\nURL: file:///notes\n\nremember");
    b.open(&mut fs, "file:///gone");
    assert_eq!(b.view(&fs), "Broom\nURL: file:///gone\n\nFile not found\n");
    b.open(&mut fs, "ftp://x");
    assert_eq!(b.view(&fs), "Broom\nURL: ftp://x\n\nUnsupported scheme.\n");
    assert_eq!(
        waemom::fs::read(&fs, "/home/broom/history.txt").unwrap(),
        b"https://www.google.com/search?q=waemom+os\nfile:///notes\nfile:///gone\nftp://x"
    );
    assert_eq!(waemom::fs::read(&fs, "/home/broom/bookmarks.txt").unwrap(), b"about:blank\nfile:///notes");
    assert_eq!(Broom::load(&fs).history.len(), 4);
    let mut none = None;
    b.save(&mut none);
    assert!(none.is_none());
}
