use vstd::prelude::*;
use vstd::string::StringSliceAdditionalSpecFns;

pub mod fat;
pub mod memfs;

use memfs::{added, components, names_of, texts, walk, written, KindView, MemFs, NodeView};

verus! {

/// The files that the image of the system brings along.
pub struct Assets<'a> {
    pub hello: &'a [u8],
    pub lock: &'a [u8],
    pub index_html: &'a [u8],
    pub app_js: &'a [u8],
    pub styles_css: &'a [u8],
}

/// The tree that a fresh file system holds: the two text files of the
/// system, then the files of the image, each added in turn.
pub open spec fn initial_tree(assets: Assets) -> Seq<NodeView> {
    let t0 = seq![(NodeView { name: "/"@, kind: KindView::Dir(Seq::empty()) })];
    let t1 = added(
        t0,
        components("/README.txt"@),
        "waemom OS\nThis is a tiny hobby kernel with a toy window system.\n".spec_bytes(),
    );
    let t2 = added(t1, components("/etc/motd"@), "Welcome to waemom!\nEnjoy your stay.\n".spec_bytes());
    let t3 = added(t2, components("/bin/hello"@), assets.hello@);
    let t4 = added(t3, components("/waemon.lock"@), assets.lock@);
    let t5 = added(t4, components("/www/index.html"@), assets.index_html@);
    let t6 = added(t5, components("/www/app.js"@), assets.app_js@);
    added(t6, components("/www/styles.css"@), assets.styles_css@)
}

/// Every file of a fresh file system has a path of a few parts only.
proof fn lemma_short_paths()
    ensures
        components("/README.txt"@).len() <= 11,
        components("/etc/motd"@).len() <= 9,
        components("/bin/hello"@).len() <= 10,
        components("/waemon.lock"@).len() <= 12,
        components("/www/index.html"@).len() <= 15,
        components("/www/app.js"@).len() <= 11,
        components("/www/styles.css"@).len() <= 15,
{
    reveal_strlit("/README.txt");
    reveal_strlit("/etc/motd");
    reveal_strlit("/bin/hello");
    reveal_strlit("/waemon.lock");
    reveal_strlit("/www/index.html");
    reveal_strlit("/www/app.js");
    reveal_strlit("/www/styles.css");
    memfs::lemma_components_len("/README.txt"@);
    memfs::lemma_components_len("/etc/motd"@);
    memfs::lemma_components_len("/bin/hello"@);
    memfs::lemma_components_len("/waemon.lock"@);
    memfs::lemma_components_len("/www/index.html"@);
    memfs::lemma_components_len("/www/app.js"@);
    memfs::lemma_components_len("/www/styles.css"@);
}

/// Sets up the file system with the files of the system and of the image.
pub fn init(assets: &Assets) -> (fs: Option<MemFs>)
    ensures
        fs is Some,
        fs->0.wf(),
        fs->0@ == initial_tree(*assets),
{
    let mut fs = MemFs::new_dir("/");
    proof {
        lemma_short_paths();
    }
    let ghost t0 = fs@;
    fs.add_file("/README.txt", "waemom OS\nThis is a tiny hobby kernel with a toy window system.\n".as_bytes());
    let ghost t1 = fs@;
    proof {
        memfs::lemma_added_len(
            t0,
            components("/README.txt"@),
            "waemom OS\nThis is a tiny hobby kernel with a toy window system.\n".spec_bytes(),
        );
    }
    fs.add_file("/etc/motd", "Welcome to waemom!\nEnjoy your stay.\n".as_bytes());
    let ghost t2 = fs@;
    proof {
        memfs::lemma_added_len(t1, components("/etc/motd"@), "Welcome to waemom!\nEnjoy your stay.\n".spec_bytes());
    }
    fs.add_file("/bin/hello", assets.hello);
    let ghost t3 = fs@;
    proof {
        memfs::lemma_added_len(t2, components("/bin/hello"@), assets.hello@);
    }
    fs.add_file("/waemon.lock", assets.lock);
    let ghost t4 = fs@;
    proof {
        memfs::lemma_added_len(t3, components("/waemon.lock"@), assets.lock@);
    }
    fs.add_file("/www/index.html", assets.index_html);
    let ghost t5 = fs@;
    proof {
        memfs::lemma_added_len(t4, components("/www/index.html"@), assets.index_html@);
    }
    fs.add_file("/www/app.js", assets.app_js);
    let ghost t6 = fs@;
    proof {
        memfs::lemma_added_len(t5, components("/www/app.js"@), assets.app_js@);
    }
    fs.add_file("/www/styles.css", assets.styles_css);
    Some(fs)
}

/// The bytes of the file that the path names, where there is a file system
/// and the path names a file in it.
pub open spec fn file_of(fs: Option<MemFs>, path: Seq<char>) -> Option<Seq<u8>> {
    match fs {
        None => None,
        Some(tree) => match walk(tree@, components(path)) {
            Some(c) => match tree@[c].kind {
                KindView::File(data) => Some(data),
                KindView::Dir(_) => None,
            },
            None => None,
        },
    }
}

/// The bytes of the file that the path names; an error where there is no
/// file system yet, or the path names a directory or nothing.
pub fn read(fs: &Option<MemFs>, path: &str) -> (r: Result<Vec<u8>, ()>)
    requires
        fs is Some ==> fs->0.wf(),
    ensures
        r is Ok <==> file_of(*fs, path@) is Some,
        r is Ok ==> r->Ok_0@ == file_of(*fs, path@)->0,
{
    match fs {
        Some(tree) => tree.read(path),
        None => Err(()),
    }
}

/// The names in the directory that the path names; an error where there is
/// no file system yet, or the path names a file or nothing.
pub fn list(fs: &Option<MemFs>, path: &str) -> (r: Result<Vec<String>, ()>)
    requires
        fs is Some ==> fs->0.wf(),
    ensures
        match *fs {
            None => r is Err,
            Some(tree) => match walk(tree@, components(path@)) {
                Some(c) => match tree@[c].kind {
                    KindView::Dir(children) => r is Ok && texts(r->Ok_0@) == names_of(tree@, children),
                    KindView::File(_) => r is Err,
                },
                None => r is Err,
            },
        },
{
    match fs {
        Some(tree) => tree.list(path),
        None => Err(()),
    }
}

/// The tree after an attempt to write `data` to the file that the path
/// names: as `written` gives it where the write succeeds, else as it was.
pub open spec fn after_write(tree: Seq<NodeView>, path: Seq<char>, data: Seq<u8>) -> Seq<NodeView> {
    if written(tree, components(path), data) is Some && (components(path).len() == 0 || tree.len() + components(path).len()
        <= usize::MAX) {
        written(tree, components(path), data)->0
    } else {
        tree
    }
}

/// Writes `data` to the file that the path names, as `MemFs::write` does;
/// an error where there is no file system yet.
pub fn write(fs: &mut Option<MemFs>, path: &str, data: &[u8]) -> (r: Result<(), ()>)
    requires
        *old(fs) is Some ==> old(fs)->0.wf(),
    ensures
        *old(fs) is None ==> r is Err && *final(fs) is None,
        *old(fs) is Some ==> {
            &&& *final(fs) is Some
            &&& final(fs)->0.wf()
            &&& r is Err ==> final(fs)->0@ == old(fs)->0@
            &&& r is Ok <==> written(old(fs)->0@, components(path@), data@) is Some && (components(path@).len() == 0 || old(
                fs,
            )->0@.len() + components(path@).len() <= usize::MAX)
            &&& r is Ok ==> final(fs)->0@ == written(old(fs)->0@, components(path@), data@)->0
            &&& final(fs)->0@ == after_write(old(fs)->0@, path@, data@)
        },
{
    match fs {
        Some(tree) => tree.write(path, data),
        None => Err(()),
    }
}

} // verus!
