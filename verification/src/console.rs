use crate::graphics::{block_on, fill_block, lemma_more, minus, outline, outline_wide, text_dots, text_wide, Color, Dot, Fb, Font};
use crate::kernel::Kernel;
use crate::pit::{uptime, uptime_text};
use crate::scheduler::{heap_after_stack, stack_for, wake_deadline, with_state, SchedView};
use crate::task::State;
use crate::text::{begins_with, chars_of, parse_number, parsed_number, same_text, slice_chars, starts_with, string_of, trim, trimmed};
use vstd::prelude::*;
use vstd::utf8::encode_utf8;

verus! {

/// Greatest number of bytes of pending input.
pub const INPUT_BYTES: usize = 128;

/// Greatest number of bytes of output that the console keeps.
pub const OUTPUT_BYTES: usize = 512;

/// The characters of the line that is being typed.
pub uninterp spec fn input_text(s: heapless::String<128>) -> Seq<char>;

/// The characters that the console shows.
pub uninterp spec fn output_text(s: heapless::String<512>) -> Seq<char>;

/// `heapless::String::new`: an input line without characters.
#[verifier::external_body]
fn input_new() -> (s: heapless::String<128>)
    ensures
        input_text(s) == Seq::<char>::empty(),
{
    heapless::String::new()
}

/// `heapless::String::push`: appends the character where the line then takes
/// no more than 128 bytes of UTF-8, and otherwise leaves the line as it was.
#[verifier::external_body]
fn input_push(s: &mut heapless::String<128>, c: char) -> (stored: bool)
    ensures
        stored == (encode_utf8(input_text(*old(s)).push(c)).len() <= 128),
        input_text(*final(s)) == if stored { input_text(*old(s)).push(c) } else { input_text(*old(s)) },
{
    s.push(c).is_ok()
}

/// `heapless::String::pop`: takes the last character off the line and returns
/// it, or returns `None` where the line is empty.
#[verifier::external_body]
fn input_pop(s: &mut heapless::String<128>) -> (c: Option<char>)
    ensures
        input_text(*old(s)).len() == 0 ==> c is None && input_text(*final(s)) == input_text(*old(s)),
        input_text(*old(s)).len() > 0 ==> c == Some(input_text(*old(s)).last()) && input_text(*final(s)) == input_text(
            *old(s),
        ).drop_last(),
{
    s.pop()
}

/// `heapless::String::clear`: empties the line.
#[verifier::external_body]
fn input_clear(s: &mut heapless::String<128>)
    ensures
        input_text(*final(s)) == Seq::<char>::empty(),
{
    s.clear()
}

/// `heapless::String::as_str`: the characters of the line.
#[verifier::external_body]
fn input_as_str(s: &heapless::String<128>) -> (text: &str)
    ensures
        text@ == input_text(*s),
{
    s.as_str()
}

/// `heapless::String::new`: an output without characters.
#[verifier::external_body]
fn output_new() -> (s: heapless::String<512>)
    ensures
        output_text(s) == Seq::<char>::empty(),
{
    heapless::String::new()
}

/// `heapless::String::push_str`: appends the text where the output then
/// takes no more than 512 bytes of UTF-8, and otherwise leaves the output as it was.
#[verifier::external_body]
fn output_push_str(s: &mut heapless::String<512>, text: &str) -> (stored: bool)
    ensures
        stored == (encode_utf8(output_text(*old(s)) + text@).len() <= 512),
        output_text(*final(s)) == if stored { output_text(*old(s)) + text@ } else { output_text(*old(s)) },
{
    s.push_str(text).is_ok()
}

/// `heapless::String::push`: appends the character where the output then
/// takes no more than 512 bytes of UTF-8, and otherwise leaves the output as it was.
#[verifier::external_body]
fn output_push(s: &mut heapless::String<512>, c: char) -> (stored: bool)
    ensures
        stored == (encode_utf8(output_text(*old(s)).push(c)).len() <= 512),
        output_text(*final(s)) == if stored { output_text(*old(s)).push(c) } else { output_text(*old(s)) },
{
    s.push(c).is_ok()
}

/// `heapless::String::clear`: empties the output.
#[verifier::external_body]
fn output_clear(s: &mut heapless::String<512>)
    ensures
        output_text(*final(s)) == Seq::<char>::empty(),
{
    s.clear()
}

/// `heapless::String::as_str`: the characters of the output.
#[verifier::external_body]
fn output_as_str(s: &heapless::String<512>) -> (text: &str)
    ensures
        text@ == output_text(*s),
{
    s.as_str()
}

/// The console: the line that is being typed, and the text that is shown.
pub struct Console {
    pub input: heapless::String<128>,
    pub output: heapless::String<512>,
}

/// What the console holds, as plain values.
pub struct ConsoleView {
    pub input: Seq<char>,
    pub output: Seq<char>,
}

impl View for Console {
    type V = ConsoleView;

    open spec fn view(&self) -> ConsoleView {
        ConsoleView { input: input_text(self.input), output: output_text(self.output) }
    }
}

/// The output after `text` was appended: with it where the whole then fits
/// in 512 bytes, unchanged where it does not.
pub open spec fn appended(out: Seq<char>, text: Seq<char>) -> Seq<char> {
    if encode_utf8(out + text).len() <= 512 {
        out + text
    } else {
        out
    }
}

/// The output after a line was printed: the text, then a line feed, each
/// appended where it fits.
pub open spec fn printed(out: Seq<char>, text: Seq<char>) -> Seq<char> {
    appended(appended(out, text), seq!['\n'])
}

impl Console {
    /// A console without input and output.
    pub fn new() -> (c: Self)
        ensures
            c@ == (ConsoleView { input: Seq::empty(), output: Seq::empty() }),
    {
        Console { input: input_new(), output: output_new() }
    }

    /// The text that is shown.
    pub fn output(&self) -> (text: &str)
        ensures
            text@ == self@.output,
    {
        output_as_str(&self.output)
    }

    /// The line that is being typed.
    pub fn input(&self) -> (text: &str)
        ensures
            text@ == self@.input,
    {
        input_as_str(&self.input)
    }

    /// Appends `text` to the output where it fits.
    pub fn push_text(&mut self, text: &str)
        ensures
            final(self)@ == (ConsoleView { output: appended(old(self)@.output, text@), ..old(self)@ }),
    {
        let _stored = output_push_str(&mut self.output, text);
    }

    /// Appends a character to the line that is being typed, where it fits.
    pub fn type_char(&mut self, c: char)
        ensures
            final(self)@ == (ConsoleView {
                input: if encode_utf8(old(self)@.input.push(c)).len() <= 128 {
                    old(self)@.input.push(c)
                } else {
                    old(self)@.input
                },
                ..old(self)@
            }),
    {
        let _stored = input_push(&mut self.input, c);
    }

    /// Takes the last character off the line that is being typed, if there is one.
    pub fn erase_char(&mut self)
        ensures
            final(self)@ == (ConsoleView {
                input: if old(self)@.input.len() > 0 { old(self)@.input.drop_last() } else { old(self)@.input },
                ..old(self)@
            }),
    {
        let _c = input_pop(&mut self.input);
    }

    /// Empties the line that is being typed.
    pub fn clear_input(&mut self)
        ensures
            final(self)@ == (ConsoleView { input: Seq::empty(), ..old(self)@ }),
    {
        input_clear(&mut self.input);
    }
}

/// Prints a line: appends `s` to the output, then a line feed, each where it fits.
pub fn println(cns: &mut Console, s: &str)
    ensures
        final(cns)@ == (ConsoleView { output: printed(old(cns)@.output, s@), ..old(cns)@ }),
{
    let _stored = output_push_str(&mut cns.output, s);
    let ghost mid = output_text(cns.output);
    let _fed = output_push(&mut cns.output, '\n');
    proof {
        assert(mid.push('\n') =~= mid + seq!['\n']);
    }
}

/// Empties the output.
pub fn clear(cns: &mut Console)
    ensures
        final(cns)@ == (ConsoleView { output: Seq::empty(), ..old(cns)@ }),
{
    output_clear(&mut cns.output);
}

/// Height of the console on the screen, in pixels.
pub const CONSOLE_H: usize = 140;

/// The dots of the console on a screen of `w` by `h` pixels: a dark panel
/// with a border along the lower edge, the output in it, and a prompt below.
pub open spec fn console_dots(font: Seq<[u8; 8]>, output: Seq<char>, w: int, h: int) -> Seq<Dot> {
    let y = minus(h, CONSOLE_H as int);
    block_on(0, y, w, CONSOLE_H as int, Color(16, 16, 16), w, h) + outline(0, y, w as nat, CONSOLE_H as nat, Color(85, 85, 90))
        + text_dots(font, output, 8, y + 8, Color(255, 255, 255), None, 1, w, h) + text_dots(
        font,
        ">"@,
        8,
        y + CONSOLE_H - 24,
        Color(255, 255, 255),
        None,
        1,
        w,
        h,
    )
}

/// Paints the console over the lower part of the screen.
pub fn draw(fb: &mut Fb, font: &Font, cns: &Console)
    requires
        old(fb)@.wf(),
    ensures
        final(fb)@ == old(fb)@.draw(console_dots(font.glyphs@, cns@.output, old(fb)@.width as int, old(fb)@.height as int)),
        final(fb)@.wf(),
{
    let ghost start = fb@;
    let ghost sw = fb@.width as int;
    let ghost sh = fb@.height as int;
    let ghost mut acc: Seq<Dot> = Seq::empty();
    let w = fb.width;
    let h = fb.height;
    let y: i128 = (if h >= CONSOLE_H { h - CONSOLE_H } else { 0 }) as i128;
    fill_block(fb, 0, y, w, CONSOLE_H, Color::rgb(16, 16, 16));
    proof {
        let p = block_on(0, y as int, sw, CONSOLE_H as int, Color(16, 16, 16), sw, sh);
        lemma_more(start, acc, p, fb@);
        acc = acc + p;
    }
    outline_wide(fb, 0, y, w, CONSOLE_H, Color::win_border());
    proof {
        let p = outline(0, y as int, sw as nat, CONSOLE_H as nat, Color(85, 85, 90));
        lemma_more(start, acc, p, fb@);
        acc = acc + p;
    }
    text_wide(fb, font, 8, y + 8, cns.output(), Color::white(), None, 1);
    proof {
        let p = text_dots(font.glyphs@, cns@.output, 8, y + 8, Color(255, 255, 255), None, 1, sw, sh);
        lemma_more(start, acc, p, fb@);
        acc = acc + p;
    }
    text_wide(fb, font, 8, y + (CONSOLE_H - 24) as i128, ">", Color::white(), None, 1);
    proof {
        let p = text_dots(font.glyphs@, ">"@, 8, y + CONSOLE_H - 24, Color(255, 255, 255), None, 1, sw, sh);
        lemma_more(start, acc, p, fb@);
        acc = acc + p;
    }
}

/// The output after a command was echoed: a line feed where there is output
/// already, then the prompt, the command and a line feed, each where it fits.
pub open spec fn echoed(out: Seq<char>, cmd: Seq<char>) -> Seq<char> {
    let o1 = if out.len() > 0 { appended(out, "\n"@) } else { out };
    appended(appended(appended(o1, "> "@), cmd), "\n"@)
}

/// What a command of the console asks for.
pub enum Request {
    /// Say hello.
    Hello,
    /// Empty the output.
    Clear,
    /// Put the current task to sleep for so many ticks; `None` where the
    /// command names no number.
    Sleep(Option<u64>),
    /// Start a kernel task with this name.
    Spawn(Seq<char>),
    /// Show the uptime.
    Uptime,
    /// Nothing: the line was empty.
    Nothing,
    /// A command that the console does not know.
    Unknown,
}

/// What a trimmed line of the console asks for.
pub open spec fn request_of(cmd: Seq<char>) -> Request {
    if cmd == "hello"@ {
        Request::Hello
    } else if cmd == "clear"@ {
        Request::Clear
    } else if begins_with(cmd, "sleep "@) {
        Request::Sleep(
            match parsed_number(trimmed(cmd.skip(6)), u64::MAX as nat) {
                Some(t) => Some(t as u64),
                None => None,
            },
        )
    } else if begins_with(cmd, "spawn "@) {
        Request::Spawn(trimmed(cmd.skip(6)))
    } else if cmd == "uptime"@ {
        Request::Uptime
    } else if cmd.len() == 0 {
        Request::Nothing
    } else {
        Request::Unknown
    }
}

/// The output of the console after a command was carried out: the echo of
/// the command, then the answer.
pub open spec fn answered(out: Seq<char>, cmd: Seq<char>, up: Seq<char>) -> Seq<char> {
    let e = echoed(out, cmd);
    match request_of(cmd) {
        Request::Hello => appended(e, "Hello!\n"@),
        Request::Clear => Seq::empty(),
        Request::Sleep(Some(_)) => appended(e, "(sleep requested)\n"@),
        Request::Sleep(None) => e,
        Request::Spawn(_) => appended(e, "(spawn requested)\n"@),
        Request::Uptime => appended(appended(e, up), seq!['\n']),
        Request::Nothing => e,
        Request::Unknown => appended(e, "Unknown command\n"@),
    }
}

/// Carries out the line that was typed at the console: echoes it, does what
/// it asks for, appends the answer, and empties the line.
pub fn handle_command(k: &mut Kernel)
    requires
        old(k).wf(),
    ensures
        final(k).wf(),
        final(k).console@ == (ConsoleView {
            input: Seq::empty(),
            output: answered(old(k).console@.output, trimmed(old(k).console@.input), uptime_text(uptime(old(k).pit@))),
        }),
        *final(k) == (Kernel { console: final(k).console, sched: final(k).sched, heap: final(k).heap, ..*old(k) }),
        match request_of(trimmed(old(k).console@.input)) {
            Request::Sleep(Some(t)) => final(k).heap == old(k).heap && final(k).sched@ == (SchedView {
                tasks: old(k).sched@.tasks.update(
                    old(k).sched@.current->0 as int,
                    with_state(
                        old(k).sched@.tasks[old(k).sched@.current->0 as int],
                        State::Sleeping(wake_deadline(uptime(old(k).pit@), t)),
                    ),
                ),
                ..old(k).sched@
            }),
            Request::Spawn(name) => final(k).heap@ == heap_after_stack(old(k).heap@) && final(k).sched@ == old(k).sched@.spawned(
                name,
                old(k).entries.kthread,
                stack_for(old(k).heap@),
                old(k).mem@.active,
            ),
            _ => final(k).heap == old(k).heap && final(k).sched == old(k).sched,
        },
{
    let line = chars_of(k.console.input());
    let cmd = trim(&line);
    let text = string_of(&cmd);
    if !k.console.output().is_empty() {
        k.console.push_text("\n");
    }
    k.console.push_text("> ");
    k.console.push_text(text.as_str());
    k.console.push_text("\n");
    if same_text(&cmd, "hello") {
        k.console.push_text("Hello!\n");
    } else if same_text(&cmd, "clear") {
        clear(&mut k.console);
    } else if starts_with(&cmd, "sleep ") {
        proof {
            reveal_strlit("sleep ");
        }
        let arg = trim(&slice_chars(&cmd, 6, cmd.len()));
        proof {
            assert(cmd@.subrange(6, cmd@.len() as int) =~= cmd@.skip(6));
        }
        match parse_number(&arg, u64::MAX) {
            Some(t) => {
                crate::syscalls::sleep_ticks(k, t);
                k.console.push_text("(sleep requested)\n");
            },
            None => {},
        }
    } else if starts_with(&cmd, "spawn ") {
        proof {
            reveal_strlit("spawn ");
        }
        let name = string_of(&trim(&slice_chars(&cmd, 6, cmd.len())));
        proof {
            assert(cmd@.subrange(6, cmd@.len() as int) =~= cmd@.skip(6));
        }
        let _pid = crate::syscalls::spawn(k, name.as_str());
        k.console.push_text("(spawn requested)\n");
    } else if same_text(&cmd, "uptime") {
        let t = crate::pit::format_uptime(&k.pit);
        k.console.push_text(t.as_str());
        k.console.push_text("\n");
        proof {
            reveal_strlit("\n");
            assert("\n"@ =~= seq!['\n']);
        }
    } else if cmd.len() == 0 {
    } else {
        k.console.push_text("Unknown command\n");
    }
    k.console.clear_input();
}

/// Takes a character typed at the console: a line feed or carriage return
/// carries out the line, a backspace takes the last character off it, and
/// any other character is appended to it where it fits.
pub fn on_char(k: &mut Kernel, c: char)
    requires
        old(k).wf(),
    ensures
        final(k).wf(),
        *final(k) == (Kernel { console: final(k).console, sched: final(k).sched, heap: final(k).heap, ..*old(k) }),
        c == '\n' || c == '\r' ==> final(k).console@ == (ConsoleView {
            input: Seq::empty(),
            output: answered(old(k).console@.output, trimmed(old(k).console@.input), uptime_text(uptime(old(k).pit@))),
        }),
        c == '\u{8}' ==> final(k).sched == old(k).sched && final(k).heap == old(k).heap && final(k).console@ == (ConsoleView {
            input: if old(k).console@.input.len() > 0 { old(k).console@.input.drop_last() } else { old(k).console@.input },
            ..old(k).console@
        }),
        !(c == '\n' || c == '\r' || c == '\u{8}') ==> final(k).sched == old(k).sched && final(k).heap == old(k).heap
            && final(k).console@ == (ConsoleView {
            input: if encode_utf8(old(k).console@.input.push(c)).len() <= 128 {
                old(k).console@.input.push(c)
            } else {
                old(k).console@.input
            },
            ..old(k).console@
        }),
{
    if c == '\n' || c == '\r' {
        handle_command(k);
    } else if c == '\u{8}' {
        k.console.erase_char();
    } else {
        k.console.type_char(c);
    }
}

} // verus!
