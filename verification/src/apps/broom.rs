use crate::fs::memfs::{texts, written, MemFs};
use crate::fs::{after_write, file_of};
use crate::graphics::Fb;
use crate::text::{begins_with, chars_of, lines, push_char, rows, split_lines, starts_with, string_of, text_of};
use crate::ui::icons::held;
use crate::window::{open_window_icon_animated, opened_dots, Desktop};
use vstd::prelude::*;
use vstd::string::{StringExecFns, StringSliceAdditionalSpecFns};
use vstd::utf8::{decode_utf8, encode_utf8, valid_utf8};

verus! {

/// The browser: the address it shows, the addresses it has shown, and the
/// addresses that are marked.
pub struct Broom {
    pub current_url: String,
    pub history: Vec<String>,
    pub bookmarks: Vec<String>,
}

/// What the browser holds, as plain values.
pub struct BroomView {
    pub current_url: Seq<char>,
    pub history: Seq<Seq<char>>,
    pub bookmarks: Seq<Seq<char>>,
}

impl Broom {
    /// What the browser holds, as plain values.
    pub open spec fn model(&self) -> BroomView {
        BroomView { current_url: self.current_url@, history: texts(self.history@), bookmarks: texts(self.bookmarks@) }
    }
}

/// Where the history is kept.
pub open spec fn history_path() -> Seq<char> {
    "/home/broom/history.txt"@
}

/// Where the bookmarks are kept.
pub open spec fn bookmarks_path() -> Seq<char> {
    "/home/broom/bookmarks.txt"@
}

/// A line without the carriage return at its end, if it has one.
pub open spec fn without_cr(l: Seq<char>) -> Seq<char> {
    if l.len() > 0 && l.last() == '\r' {
        l.drop_last()
    } else {
        l
    }
}

/// The lines of a text as they are read from a file: the parts between line
/// feeds, each without a carriage return before the line feed; what follows
/// the last line feed is a line too, unless it is empty.
pub open spec fn file_lines(s: Seq<char>) -> Seq<Seq<char>> {
    let raw = lines(s);
    let ended = Seq::new((raw.len() - 1) as nat, |i: int| without_cr(raw[i]));
    if raw.last().len() > 0 {
        ended.push(raw.last())
    } else {
        ended
    }
}

/// The lines of the file at `path`; none where it is missing or no text.
pub open spec fn lines_at(fs: Option<MemFs>, path: Seq<char>) -> Seq<Seq<char>> {
    match file_of(fs, path) {
        Some(bytes) => if valid_utf8(bytes) {
            file_lines(decode_utf8(bytes))
        } else {
            Seq::empty()
        },
        None => Seq::empty(),
    }
}

/// The first `n` texts of a list, with line feeds between them.
pub open spec fn joined(list: Seq<Seq<char>>, n: nat) -> Seq<char>
    decreases n,
{
    if n == 0 {
        Seq::empty()
    } else if n == 1 {
        list[0]
    } else {
        joined(list, (n - 1) as nat) + seq!['\n'] + list[n - 1]
    }
}

/// The character of a digit below sixteen, letters in upper case.
pub open spec fn upper_digit(d: int) -> char {
    if d < 10 {
        ('0' as int + d) as char
    } else {
        ('A' as int + d - 10) as char
    }
}

/// True for the bytes that an address takes as they are: letters and digits
/// of the basic alphabet, and `-`, `_`, `.` and `~`.
pub open spec fn unreserved(b: u8) -> bool {
    ||| 0x30 <= b <= 0x39
    ||| 0x41 <= b <= 0x5A
    ||| 0x61 <= b <= 0x7A
    ||| b == 0x2D
    ||| b == 0x5F
    ||| b == 0x2E
    ||| b == 0x7E
}

/// The first `n` bytes of a text encoded for an address: unreserved bytes
/// as they are, a blank as `+`, any other byte as `%` and two hexadecimal
/// digits in upper case.
pub open spec fn url_encoded(bytes: Seq<u8>, n: nat) -> Seq<char>
    decreases n,
{
    if n == 0 {
        Seq::empty()
    } else {
        let b = bytes[n - 1];
        let before = url_encoded(bytes, (n - 1) as nat);
        if unreserved(b) {
            before.push(b as char)
        } else if b == 0x20 {
            before.push('+')
        } else {
            before + seq!['%', upper_digit(b as int / 16), upper_digit(b as int % 16)]
        }
    }
}

/// The character of a digit below sixteen, letters in upper case.
fn upper_digit_of(d: u8) -> (c: char)
    requires
        d < 16,
    ensures
        c == upper_digit(d as int),
{
    if d < 10 {
        (0x30 + d) as char
    } else {
        (0x41 + d - 10) as char
    }
}

/// Encodes a text for an address; see `url_encoded`.
pub fn url_encode(s: &str) -> (out: String)
    ensures
        out@ == url_encoded(s.spec_bytes(), s.spec_bytes().len()),
{
    let bytes = s.as_bytes();
    let mut out = String::new();
    let mut i: usize = 0;
    while i < bytes.len()
        invariant
            i <= bytes@.len(),
            bytes@ == s.spec_bytes(),
            out@ == url_encoded(bytes@, i as nat),
        decreases bytes@.len() - i,
    {
        let b = bytes[i];
        let plain = (0x30 <= b && b <= 0x39) || (0x41 <= b && b <= 0x5A) || (0x61 <= b && b <= 0x7A) || b == 0x2D || b == 0x5F
            || b == 0x2E || b == 0x7E;
        if plain {
            push_char(&mut out, b as char);
        } else if b == 0x20 {
            push_char(&mut out, '+');
        } else {
            let ghost before = out@;
            push_char(&mut out, '%');
            push_char(&mut out, upper_digit_of(b / 16));
            push_char(&mut out, upper_digit_of(b % 16));
            proof {
                assert(out@ =~= before + seq!['%', upper_digit(b as int / 16), upper_digit(b as int % 16)]);
            }
        }
        i += 1;
    }
    out
}

/// Reads the lines of the file at `path`; none where it is missing or no text.
pub fn read_lines(fs: &Option<MemFs>, path: &str) -> (out: Vec<String>)
    requires
        fs is Some ==> fs->0.wf(),
    ensures
        texts(out@) == lines_at(*fs, path@),
{
    let mut out: Vec<String> = Vec::new();
    let bytes = match crate::fs::read(fs, path) {
        Ok(b) => b,
        Err(_) => {
            proof {
                assert(texts(out@) =~= Seq::<Seq<char>>::empty());
            }
            return out;
        },
    };
    let text = match text_of(bytes.as_slice()) {
        Some(t) => t,
        None => {
            proof {
                assert(texts(out@) =~= Seq::<Seq<char>>::empty());
            }
            return out;
        },
    };
    proof {
        vstd::utf8::encode_utf8_decode_utf8(text@);
    }
    let chars = chars_of(text);
    let raw = split_lines(&chars);
    proof {
        crate::text::lemma_lines_some(chars@, Seq::empty());
    }
    let n = raw.len();
    let ghost ended = Seq::new((n - 1) as nat, |i: int| without_cr(rows(raw@)[i]));
    let mut i: usize = 0;
    proof {
        assert(texts(out@) =~= ended.take(0));
    }
    while i + 1 < n
        invariant
            n == raw@.len(),
            n >= 1,
            i + 1 <= n,
            ended == Seq::new((n - 1) as nat, |j: int| without_cr(rows(raw@)[j])),
            texts(out@) == ended.take(i as int),
        decreases n - i,
    {
        let l = &raw[i];
        let len = l.len();
        let ghost had = texts(out@);
        let line = if len > 0 && l[len - 1] == '\r' {
            proof {
                assert(l@.subrange(0, len - 1) =~= l@.drop_last());
            }
            string_of(&crate::text::slice_chars(l, 0, len - 1))
        } else {
            string_of(l)
        };
        proof {
            assert(rows(raw@)[i as int] == l@);
            assert(line@ == without_cr(l@));
        }
        out.push(line);
        proof {
            assert(texts(out@) =~= had.push(line@));
            assert(ended.take(i + 1) =~= ended.take(i as int).push(ended[i as int]));
        }
        i += 1;
    }
    proof {
        assert(ended.take(n - 1) =~= ended);
        assert(rows(raw@).last() == raw@[n - 1]@);
    }
    if raw[n - 1].len() > 0 {
        let ghost had = texts(out@);
        let last = string_of(&raw[n - 1]);
        out.push(last);
        proof {
            assert(texts(out@) =~= had.push(last@));
        }
    }
    out
}

/// Joins texts with line feeds between them.
pub fn join_lines(list: &Vec<String>) -> (out: String)
    ensures
        out@ == joined(texts(list@), list@.len()),
{
    let mut out = String::new();
    let mut i: usize = 0;
    while i < list.len()
        invariant
            i <= list@.len(),
            out@ == joined(texts(list@), i as nat),
        decreases list@.len() - i,
    {
        let ghost before = out@;
        if i > 0 {
            push_char(&mut out, '\n');
        }
        out.append(list[i].as_str());
        proof {
            assert(texts(list@)[i as int] == list@[i as int]@);
            if i == 0 {
                assert(out@ =~= list@[0]@);
            } else {
                assert(out@ =~= before + seq!['\n'] + list@[i as int]@);
            }
        }
        i += 1;
    }
    out
}

impl Broom {
    /// The browser as it starts: on the blank page, with the history and the
    /// bookmarks that the file system holds.
    pub fn load(fs: &Option<MemFs>) -> (b: Self)
        requires
            fs is Some ==> fs->0.wf(),
        ensures
            b.model() == (BroomView {
                current_url: "about:blank"@,
                history: lines_at(*fs, history_path()),
                bookmarks: lines_at(*fs, bookmarks_path()),
            }),
    {
        let history = read_lines(fs, "/home/broom/history.txt");
        let bookmarks = read_lines(fs, "/home/broom/bookmarks.txt");
        Broom { current_url: String::from_str("about:blank"), history, bookmarks }
    }

    /// Writes the history and the bookmarks to their files, one address a
    /// line. A file that cannot be written is left as it is.
    pub fn save(&self, fs: &mut Option<MemFs>)
        requires
            *old(fs) is Some ==> old(fs)->0.wf(),
        ensures
            *old(fs) is None ==> *final(fs) is None,
            *old(fs) is Some ==> *final(fs) is Some && final(fs)->0.wf() && final(fs)->0@ == saved(old(fs)->0@, self.model()),
    {
        let h = join_lines(&self.history);
        let _r1 = crate::fs::write(fs, "/home/broom/history.txt", h.as_str().as_bytes());
        let b = join_lines(&self.bookmarks);
        let _r2 = crate::fs::write(fs, "/home/broom/bookmarks.txt", b.as_str().as_bytes());
    }

    /// Goes to the search for `query`: the address of the search becomes the
    /// current one and the last of the history, and the browser is saved.
    pub fn search_google(&mut self, fs: &mut Option<MemFs>, query: &str)
        requires
            *old(fs) is Some ==> old(fs)->0.wf(),
        ensures
            *old(fs) is None ==> *final(fs) is None,
            *old(fs) is Some ==> *final(fs) is Some && final(fs)->0.wf() && final(fs)->0@ == saved(
                old(fs)->0@,
                final(self).model(),
            ),
            final(self).model() == (BroomView {
                current_url: "https://www.google.com/search?q="@ + url_encoded(query.spec_bytes(), query.spec_bytes().len()),
                history: old(self).model().history.push(
                    "https://www.google.com/search?q="@ + url_encoded(query.spec_bytes(), query.spec_bytes().len()),
                ),
                ..old(self).model()
            }),
    {
        let enc = url_encode(query);
        let mut url = String::from_str("https://www.google.com/search?q=");
        url.append(enc.as_str());
        self.go(fs, url);
    }

    /// Goes to `url`: it becomes the current address and the last of the
    /// history, and the browser is saved.
    pub fn open(&mut self, fs: &mut Option<MemFs>, url: &str)
        requires
            *old(fs) is Some ==> old(fs)->0.wf(),
        ensures
            *old(fs) is None ==> *final(fs) is None,
            *old(fs) is Some ==> *final(fs) is Some && final(fs)->0.wf() && final(fs)->0@ == saved(
                old(fs)->0@,
                final(self).model(),
            ),
            final(self).model() == (BroomView { current_url: url@, history: old(self).model().history.push(url@), ..old(self).model() }),
    {
        self.go(fs, url.to_owned());
    }

    /// Goes to `url` and saves the browser.
    fn go(&mut self, fs: &mut Option<MemFs>, url: String)
        requires
            *old(fs) is Some ==> old(fs)->0.wf(),
        ensures
            *old(fs) is None ==> *final(fs) is None,
            *old(fs) is Some ==> *final(fs) is Some && final(fs)->0.wf() && final(fs)->0@ == saved(
                old(fs)->0@,
                final(self).model(),
            ),
            final(self).model() == (BroomView { current_url: url@, history: old(self).model().history.push(url@), ..old(self).model() }),
    {
        let ghost had = texts(self.history@);
        self.history.push(url.clone());
        self.current_url = url;
        proof {
            assert(texts(self.history@) =~= had.push(url@));
        }
        self.save(fs);
    }

    /// The text of the browser window: the address, and below it the file
    /// for an address of a file, or a note on what the address is.
    pub fn view(&self, fs: &Option<MemFs>) -> (text: String)
        requires
            fs is Some ==> fs->0.wf(),
        ensures
            text@ == page_text(*fs, self.model().current_url),
    {
        let mut s = String::from_str("Broom\nURL: ");
        s.append(self.current_url.as_str());
        s.append("\n\n");
        let url = chars_of(self.current_url.as_str());
        if starts_with(&url, "file://") {
            proof {
                reveal_strlit("file://");
            }
            let path = string_of(&crate::text::slice_chars(&url, 7, url.len()));
            proof {
                assert(url@.subrange(7, url@.len() as int) =~= url@.skip(7));
            }
            match crate::fs::read(fs, path.as_str()) {
                Ok(bytes) => {
                    match text_of(bytes.as_slice()) {
                        Some(t) => {
                            proof {
                                vstd::utf8::encode_utf8_decode_utf8(t@);
                            }
                            s.append(t);
                        },
                        None => {
                            s.append("<binary>");
                        },
                    }
                },
                Err(_) => {
                    s.append("File not found\n");
                },
            }
        } else if starts_with(&url, "about:") {
            s.append("about:blank\nType a query in code to search.\n");
        } else if starts_with(&url, "https://www.google.com/search?q=") {
            s.append("Google search URL generated.\nNetworking not available in this demo kernel.\n");
        } else {
            s.append("Unsupported scheme.\n");
        }
        s
    }
}

/// The tree after the browser was saved: the history written to its file,
/// then the bookmarks to theirs, each as lines of text.
pub open spec fn saved(tree: Seq<crate::fs::memfs::NodeView>, b: BroomView) -> Seq<crate::fs::memfs::NodeView> {
    after_write(
        after_write(tree, history_path(), encode_utf8(joined(b.history, b.history.len()))),
        bookmarks_path(),
        encode_utf8(joined(b.bookmarks, b.bookmarks.len())),
    )
}

/// The text of the browser window for the address `url`.
pub open spec fn page_text(fs: Option<MemFs>, url: Seq<char>) -> Seq<char> {
    "Broom\nURL: "@ + url + "\n\n"@ + (if begins_with(url, "file://"@) {
        match file_of(fs, url.skip(7)) {
            Some(bytes) => if valid_utf8(bytes) {
                decode_utf8(bytes)
            } else {
                "<binary>"@
            },
            None => "File not found\n"@,
        }
    } else if begins_with(url, "about:"@) {
        "about:blank\nType a query in code to search.\n"@
    } else if begins_with(url, "https://www.google.com/search?q="@) {
        "Google search URL generated.\nNetworking not available in this demo kernel.\n"@
    } else {
        "Unsupported scheme.\n"@
    })
}

/// Shows the browser: loads it, searches for the name of the system, and
/// opens a window with what it then shows.
pub fn launch_demo(fb: &mut Fb, d: &Desktop, fs: &mut Option<MemFs>, uptime: &str)
    requires
        old(fb)@.wf(),
        *old(fs) is Some ==> old(fs)->0.wf(),
    ensures
        final(fb)@.wf(),
        *old(fs) is None ==> *final(fs) is None,
        *old(fs) is Some ==> *final(fs) is Some && final(fs)->0.wf(),
        final(fb)@ == old(fb)@.draw(
            opened_dots(
                *d,
                uptime@,
                980,
                60,
                560,
                300,
                "Broom"@,
                page_text(
                    *final(fs),
                    "https://www.google.com/search?q="@ + url_encoded("waemom os".spec_bytes(), "waemom os".spec_bytes().len()),
                ),
                held(d.icons.files),
                16,
                old(fb)@.width as int,
                old(fb)@.height as int,
            ),
        ),
{
    let mut br = Broom::load(fs);
    br.search_google(fs, "waemom os");
    let view = br.view(fs);
    open_window_icon_animated(fb, d, uptime, 980, 60, 560, 300, "Broom", view.as_str(), 16, d.icons.files.as_ref());
}

} // verus!
