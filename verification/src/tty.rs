use vstd::prelude::*;
use vstd::utf8::encode_utf8;

verus! {

/// `heapless::spsc::Queue`, a queue of at most `N - 1` items that lies in
/// place. It is carried through as it is; nothing is known of its inside.
#[verifier::external_type_specification]
#[verifier::external_body]
#[verifier::reject_recursive_types(T)]
pub struct ExHeaplessQueue<T, const N: usize>(heapless::spsc::Queue<T, N>);

/// The characters that wait in the queue, the one that leaves next first.
pub uninterp spec fn queued(q: heapless::spsc::Queue<char, 256>) -> Seq<char>;

/// `heapless::spsc::Queue::new`: a queue that holds nothing.
#[verifier::external_body]
fn queue_new() -> (q: heapless::spsc::Queue<char, 256>)
    ensures
        queued(q) == Seq::<char>::empty(),
{
    heapless::spsc::Queue::new()
}

/// `heapless::spsc::Queue::enqueue`: adds the character at the back while
/// fewer than 255 wait, and otherwise hands it back and leaves the queue as it was.
#[verifier::external_body]
fn queue_enqueue(q: &mut heapless::spsc::Queue<char, 256>, c: char) -> (stored: bool)
    ensures
        stored == (queued(*old(q)).len() < 255),
        stored ==> queued(*final(q)) == queued(*old(q)).push(c),
        !stored ==> queued(*final(q)) == queued(*old(q)),
{
    q.enqueue(c).is_ok()
}

/// `heapless::spsc::Queue::dequeue`: takes the character at the front, or
/// returns `None` where nothing waits.
#[verifier::external_body]
fn queue_dequeue(q: &mut heapless::spsc::Queue<char, 256>) -> (c: Option<char>)
    ensures
        queued(*old(q)).len() == 0 ==> c is None && queued(*final(q)) == queued(*old(q)),
        queued(*old(q)).len() > 0 ==> c == Some(queued(*old(q))[0]) && queued(*final(q)) == queued(*old(q)).drop_first(),
{
    q.dequeue()
}

/// The terminal: the characters typed and not yet read, at most 255.
pub struct Tty {
    q: heapless::spsc::Queue<char, 256>,
}

impl View for Tty {
    type V = Seq<char>;

    closed spec fn view(&self) -> Seq<char> {
        queued(self.q)
    }
}

impl Tty {
    /// A terminal without pending characters.
    pub fn new() -> (t: Self)
        ensures
            t@ == Seq::<char>::empty(),
    {
        Tty { q: queue_new() }
    }
}

/// Queues a typed character; it is dropped where 255 wait already.
pub fn write_char(t: &mut Tty, c: char)
    ensures
        final(t)@ == if old(t)@.len() < 255 { old(t)@.push(c) } else { old(t)@ },
{
    let _stored = queue_enqueue(&mut t.q, c);
}

/// Takes the character that was typed first, if one waits.
pub fn read_char(t: &mut Tty) -> (c: Option<char>)
    ensures
        old(t)@.len() == 0 ==> c is None && final(t)@ == old(t)@,
        old(t)@.len() > 0 ==> c == Some(old(t)@[0]) && final(t)@ == old(t)@.drop_first(),
{
    queue_dequeue(&mut t.q)
}

/// The characters of a line that is being read from the terminal.
pub uninterp spec fn line_text(s: heapless::String<256>) -> Seq<char>;

/// `heapless::String::new`: a line without characters.
#[verifier::external_body]
fn line_new() -> (s: heapless::String<256>)
    ensures
        line_text(s) == Seq::<char>::empty(),
{
    heapless::String::new()
}

/// `heapless::String::push`: appends the character where the line then takes
/// no more than 256 bytes of UTF-8, and otherwise leaves the line as it was.
#[verifier::external_body]
fn line_push(s: &mut heapless::String<256>, c: char) -> (stored: bool)
    ensures
        stored == (encode_utf8(line_text(*old(s)).push(c)).len() <= 256),
        line_text(*final(s)) == if stored { line_text(*old(s)).push(c) } else { line_text(*old(s)) },
{
    s.push(c).is_ok()
}

/// `heapless::String::pop`: takes the last character off the line and returns
/// it, or returns `None` where the line is empty.
#[verifier::external_body]
fn line_pop(s: &mut heapless::String<256>) -> (c: Option<char>)
    ensures
        line_text(*old(s)).len() == 0 ==> c is None && line_text(*final(s)) == line_text(*old(s)),
        line_text(*old(s)).len() > 0 ==> c == Some(line_text(*old(s)).last()) && line_text(*final(s)) == line_text(
            *old(s),
        ).drop_last(),
{
    s.pop()
}

/// `heapless::String::clear`: empties the line.
#[verifier::external_body]
fn line_clear(s: &mut heapless::String<256>)
    ensures
        line_text(*final(s)) == Seq::<char>::empty(),
{
    s.clear()
}

/// `heapless::String::as_str`: the characters of the line.
#[verifier::external_body]
fn line_as_str(s: &heapless::String<256>) -> (text: &str)
    ensures
        text@ == line_text(*s),
{
    s.as_str()
}

/// A line that is being read from the terminal, of at most 256 bytes.
pub struct Line {
    buf: heapless::String<256>,
}

impl View for Line {
    type V = Seq<char>;

    closed spec fn view(&self) -> Seq<char> {
        line_text(self.buf)
    }
}

impl Line {
    /// An empty line.
    pub fn new() -> (l: Self)
        ensures
            l@ == Seq::<char>::empty(),
    {
        Line { buf: line_new() }
    }

    /// The characters of the line.
    pub fn as_str(&self) -> (text: &str)
        ensures
            text@ == self@,
    {
        line_as_str(&self.buf)
    }

    /// Empties the line.
    pub fn clear(&mut self)
        ensures
            final(self)@ == Seq::<char>::empty(),
    {
        line_clear(&mut self.buf);
    }
}

/// The line after the character `c` was typed: a backspace takes the last
/// character off, any other character is appended where the line then fits
/// in 256 bytes.
pub open spec fn typed(buf: Seq<char>, c: char) -> Seq<char> {
    if c == '\u{8}' {
        if buf.len() > 0 {
            buf.drop_last()
        } else {
            buf
        }
    } else if encode_utf8(buf.push(c)).len() <= 256 {
        buf.push(c)
    } else {
        buf
    }
}

/// What reading a line leaves: the pending characters that were not read,
/// the line, and whether the line is complete. Characters are read up to
/// the first line feed or carriage return, which completes the line.
pub open spec fn read_until(q: Seq<char>, buf: Seq<char>) -> (Seq<char>, Seq<char>, bool)
    decreases q.len(),
{
    if q.len() == 0 {
        (q, buf, false)
    } else if q[0] == '\n' || q[0] == '\r' {
        (q.drop_first(), buf, true)
    } else {
        read_until(q.drop_first(), typed(buf, q[0]))
    }
}

/// Reads pending characters into the line, up to the end of the line, and
/// returns whether the line is complete.
pub fn read_line(t: &mut Tty, buf: &mut Line) -> (done: bool)
    ensures
        (final(t)@, final(buf)@, done) == read_until(old(t)@, old(buf)@),
{
    loop
        invariant
            read_until(t@, buf@) == read_until(old(t)@, old(buf)@),
        decreases t@.len(),
    {
        let ghost q = t@;
        let ghost b = buf@;
        match read_char(t) {
            Some(c) => {
                if c == '\n' || c == '\r' {
                    return true;
                } else if c == '\u{8}' {
                    let _c = line_pop(&mut buf.buf);
                } else {
                    let _stored = line_push(&mut buf.buf, c);
                }
                proof {
                    assert(buf@ == typed(b, c));
                }
            },
            None => {
                return false;
            },
        }
    }
}

} // verus!
