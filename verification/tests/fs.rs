use waemom::fs::memfs::{split_path, MemFs, NodeKind};
use waemom::fs::{init, list, read, Assets};

fn assets() -> Assets<'static> {
    Assets { hello: b"\x7fELF", lock: b"[elf]\nenabled=off\n", index_html: b"<html/>", app_js: b"let x;", styles_css: b"a{}" }
}

#[test]
fn a_path_is_split_at_slashes() {
    assert_eq!(split_path("/a/bc//d/"), vec!["a", "bc", "d"]);
    assert_eq!(split_path("a"), vec!["a"]);
    assert!(split_path("").is_empty());
    assert!(split_path("///").is_empty());
    assert_eq!(split_path("ä/ö"), vec!["ä", "ö"]);
}

#[test]
fn a_fresh_file_system_holds_its_root() {
    let fs = MemFs::new_dir("/");
    assert_eq!(fs.node_count(), 1);
    assert_eq!(fs.list("/"), Ok(vec![]));
    assert_eq!(fs.list(""), Ok(vec![]));
    assert_eq!(fs.read("/"), Err(()));
    assert_eq!(fs.read("/x"), Err(()));
    assert_eq!(fs.find("/"), Some(0));
    assert_eq!(fs.find_ref("").unwrap().name, "/");
    assert!(fs.find_ref("/x").is_none());
}

#[test]
fn a_written_file_is_read_back() {
    let mut fs = MemFs::new_dir("/");
    assert_eq!(fs.write("/etc/conf/a.txt", b"one"), Ok(()));
    assert_eq!(fs.read("/etc/conf/a.txt"), Ok(b"one".to_vec()));
    assert_eq!(fs.read("etc//conf/a.txt/"), Ok(b"one".to_vec()));
    assert_eq!(fs.list("/"), Ok(vec!["etc".to_string()]));
    assert_eq!(fs.list("/etc/conf"), Ok(vec!["a.txt".to_string()]));
    assert_eq!(fs.list("/etc/conf/a.txt"), Err(()));
    assert_eq!(fs.read("/etc"), Err(()));
    assert_eq!(fs.node_count(), 4);
    assert_eq!(fs.write("/etc/conf/a.txt", b"two!"), Ok(()));
    assert_eq!(fs.read("/etc/conf/a.txt"), Ok(b"two!".to_vec()));
    assert_eq!(fs.node_count(), 4);
    assert_eq!(fs.write("/etc/b", b""), Ok(()));
    assert_eq!(fs.list("/etc"), Ok(vec!["conf".to_string(), "b".to_string()]));
}

#[test]
fn writing_through_a_file_fails_and_changes_nothing() {
    let mut fs = MemFs::new_dir("/");
    fs.write("/a", b"file").unwrap();
    assert_eq!(fs.write("/a/b", b"x"), Err(()));
    assert_eq!(fs.write("/a/b/c", b"x"), Err(()));
    assert_eq!(fs.node_count(), 2);
    assert_eq!(fs.read("/a"), Ok(b"file".to_vec()));
    assert_eq!(fs.write("", b"x"), Ok(()));
    assert_eq!(fs.write("//", b"x"), Ok(()));
    assert_eq!(fs.node_count(), 2);
}

#[test]
fn writing_to_a_directory_makes_it_a_file() {
    let mut fs = MemFs::new_dir("/");
    fs.write("/d/x", b"1").unwrap();
    assert_eq!(fs.write("/d", b"now a file"), Ok(()));
    assert_eq!(fs.read("/d"), Ok(b"now a file".to_vec()));
    assert_eq!(fs.read("/d/x"), Err(()));
    assert!(matches!(fs.find_ref("/d").unwrap().kind, NodeKind::File(_)));
}

#[test]
fn adding_a_file_twice_keeps_both_and_reads_the_first() {
    let mut fs = MemFs::new_dir("/");
    fs.add_file("/bin/tool", b"old");
    fs.add_file("/bin/tool", b"new");
    assert_eq!(fs.list("/bin"), Ok(vec!["tool".to_string(), "tool".to_string()]));
    assert_eq!(fs.read("/bin/tool"), Ok(b"old".to_vec()));
    fs.add_file("", b"nothing");
    assert_eq!(fs.node_count(), 4);
}

#[test]
fn adding_below_a_file_makes_a_directory_beside_it() {
    let mut fs = MemFs::new_dir("/");
    fs.add_file("/a", b"file");
    fs.add_file("/a/b", b"inner");
    assert_eq!(fs.list("/"), Ok(vec!["a".to_string(), "a".to_string()]));
    assert_eq!(fs.read("/a"), Ok(b"file".to_vec()));
    assert_eq!(fs.read("/a/b"), Err(()));
    assert_eq!(fs.node_count(), 4);
}

#[test]
fn the_initial_file_system_holds_the_files_of_the_image() {
    let fs = init(&assets());
    assert_eq!(
        list(&fs, "/"),
        Ok(vec!["README.txt".to_string(), "etc".to_string(), "bin".to_string(), "waemon.lock".to_string(), "www".to_string()])
    );
    assert_eq!(read(&fs, "/README.txt").unwrap(), b"waemom OS\nThis is a tiny hobby kernel with a toy window system.\n");
    assert_eq!(read(&fs, "/bin/hello").unwrap(), b"\x7fELF");
    assert_eq!(read(&fs, "/waemon.lock").unwrap(), b"[elf]\nenabled=off\n");
    assert_eq!(list(&fs, "/www"), Ok(vec!["index.html".to_string(), "app.js".to_string(), "styles.css".to_string()]));
    assert_eq!(read(&fs, "/www/styles.css").unwrap(), b"a{}");
    assert_eq!(read(&fs, "/nope"), Err(()));
}

#[test]
fn without_a_file_system_every_call_fails() {
    let mut none = None;
    assert_eq!(read(&none, "/a"), Err(()));
    assert_eq!(list(&none, "/"), Err(()));
    assert_eq!(waemom::fs::write(&mut none, "/a", b"x"), Err(()));
    assert!(none.is_none());
    let mut fs = init(&assets());
    assert_eq!(waemom::fs::write(&mut fs, "/home/me/note", b"hi"), Ok(()));
    assert_eq!(read(&fs, "/home/me/note"), Ok(b"hi".to_vec()));
    assert_eq!(waemom::fs::write(&mut fs, "/README.txt/x", b"hi"), Err(()));
}
