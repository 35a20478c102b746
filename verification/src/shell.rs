use crate::console::{printed, ConsoleView};
use crate::kernel::Kernel;
use crate::pit::{uptime, uptime_text};
use crate::scheduler::{heap_after_stack, stack_for, wake_deadline, with_state, SchedView};
use crate::task::State;
use crate::text::{begins_with, chars_of, parse_number, parsed_number, same_text, slice_chars, starts_with, string_of, trim, trimmed};
use crate::tty::{read_line, read_until, Line};
use vstd::prelude::*;

verus! {

/// What a command of the shell asks for.
pub enum ShellRequest {
    /// Say hello.
    Hello,
    /// Empty the output of the console.
    Clear,
    /// Show the uptime.
    Uptime,
    /// Put the shell to sleep for so many ticks; `None` where the command
    /// names no number.
    Sleep(Option<u64>),
    /// Start a kernel task with this name.
    Spawn(Seq<char>),
    /// Start the program in the file at this path.
    Run(Seq<char>),
    /// Nothing: the line was empty.
    Nothing,
    /// A command that the shell does not know.
    Unknown,
}

/// What a line asks of the shell, once the white space around it is taken off.
pub open spec fn shell_request(line: Seq<char>) -> ShellRequest {
    let cmd = trimmed(line);
    if cmd == "hello"@ {
        ShellRequest::Hello
    } else if cmd == "clear"@ {
        ShellRequest::Clear
    } else if cmd == "uptime"@ {
        ShellRequest::Uptime
    } else if begins_with(cmd, "sleep "@) {
        ShellRequest::Sleep(
            match parsed_number(trimmed(cmd.skip(6)), u64::MAX as nat) {
                Some(t) => Some(t as u64),
                None => None,
            },
        )
    } else if begins_with(cmd, "spawn "@) {
        ShellRequest::Spawn(cmd.skip(6))
    } else if begins_with(cmd, "run "@) {
        ShellRequest::Run(cmd.skip(4))
    } else if cmd.len() == 0 {
        ShellRequest::Nothing
    } else {
        ShellRequest::Unknown
    }
}

/// The output of the console after the shell carried out a line.
pub open spec fn shell_output(out: Seq<char>, line: Seq<char>, up: Seq<char>) -> Seq<char> {
    match shell_request(line) {
        ShellRequest::Hello => printed(out, "Hello!"@),
        ShellRequest::Clear => Seq::empty(),
        ShellRequest::Uptime => printed(out, up),
        ShellRequest::Sleep(Some(_)) => printed(out, "(sleep)"@),
        ShellRequest::Sleep(None) => out,
        ShellRequest::Spawn(_) => printed(out, "(spawn)"@),
        ShellRequest::Run(_) => printed(out, "(run)"@),
        ShellRequest::Nothing => out,
        ShellRequest::Unknown => printed(out, "Unknown"@),
    }
}

/// Carries out one line of the shell, and prints the answer at the console.
pub fn handle_cmd(k: &mut Kernel, cmd: &str)
    requires
        old(k).wf(),
    ensures
        final(k).wf(),
        final(k).console@ == (ConsoleView {
            output: shell_output(old(k).console@.output, cmd@, uptime_text(uptime(old(k).pit@))),
            ..old(k).console@
        }),
        *final(k) == (Kernel {
            console: final(k).console,
            sched: final(k).sched,
            heap: final(k).heap,
            mem: final(k).mem,
            ..*old(k)
        }),
        old(k).mem@.kernel_shared() ==> final(k).mem@.kernel_shared(),
        match shell_request(cmd@) {
            ShellRequest::Sleep(Some(t)) => final(k).heap == old(k).heap && final(k).mem == old(k).mem && final(k).sched@ == (SchedView {
                tasks: old(k).sched@.tasks.update(
                    old(k).sched@.current->0 as int,
                    with_state(
                        old(k).sched@.tasks[old(k).sched@.current->0 as int],
                        State::Sleeping(wake_deadline(uptime(old(k).pit@), t)),
                    ),
                ),
                ..old(k).sched@
            }),
            ShellRequest::Spawn(name) => final(k).mem == old(k).mem && final(k).heap@ == heap_after_stack(old(k).heap@)
                && final(k).sched@ == old(k).sched@.spawned(
                name,
                old(k).entries.kthread,
                stack_for(old(k).heap@),
                old(k).mem@.active,
            ),
            ShellRequest::Run(_) => final(k).sched@ == old(k).sched@ || final(k).sched@.tasks.len() == old(k).sched@.tasks.len() + 1,
            _ => final(k).heap == old(k).heap && final(k).sched == old(k).sched && final(k).mem == old(k).mem,
        },
{
    let line = chars_of(cmd);
    let s = trim(&line);
    if same_text(&s, "hello") {
        crate::console::println(&mut k.console, "Hello!");
    } else if same_text(&s, "clear") {
        crate::console::clear(&mut k.console);
    } else if same_text(&s, "uptime") {
        let t = crate::pit::format_uptime(&k.pit);
        crate::console::println(&mut k.console, t.as_str());
    } else if starts_with(&s, "sleep ") {
        proof {
            reveal_strlit("sleep ");
        }
        let arg = trim(&slice_chars(&s, 6, s.len()));
        proof {
            assert(s@.subrange(6, s@.len() as int) =~= s@.skip(6));
        }
        match parse_number(&arg, u64::MAX) {
            Some(t) => {
                crate::syscalls::sleep_ticks(k, t);
                crate::console::println(&mut k.console, "(sleep)");
            },
            None => {},
        }
    } else if starts_with(&s, "spawn ") {
        proof {
            reveal_strlit("spawn ");
        }
        let name = string_of(&slice_chars(&s, 6, s.len()));
        proof {
            assert(s@.subrange(6, s@.len() as int) =~= s@.skip(6));
        }
        let _pid = crate::syscalls::spawn(k, name.as_str());
        crate::console::println(&mut k.console, "(spawn)");
    } else if starts_with(&s, "run ") {
        proof {
            reveal_strlit("run ");
        }
        let path = string_of(&slice_chars(&s, 4, s.len()));
        let _r = crate::syscalls::spawn_user_elf(k, path.as_str());
        crate::console::println(&mut k.console, "(run)");
    } else if s.len() == 0 {
    } else {
        crate::console::println(&mut k.console, "Unknown");
    }
}

/// One round of the shell: reads pending characters of the terminal into
/// the line; a line that is complete is carried out and emptied. Returns
/// whether a line was carried out.
pub fn shell_task(k: &mut Kernel, buf: &mut Line) -> (ran: bool)
    requires
        old(k).wf(),
    ensures
        final(k).wf(),
        final(k).tty@ == read_until(old(k).tty@, old(buf)@).0,
        ran == read_until(old(k).tty@, old(buf)@).2,
        final(buf)@ == if ran { Seq::empty() } else { read_until(old(k).tty@, old(buf)@).1 },
        !ran ==> *final(k) == (Kernel { tty: final(k).tty, ..*old(k) }),
        ran ==> final(k).console@ == (ConsoleView {
            output: shell_output(
                old(k).console@.output,
                read_until(old(k).tty@, old(buf)@).1,
                uptime_text(uptime(old(k).pit@)),
            ),
            ..old(k).console@
        }),
{
    if read_line(&mut k.tty, buf) {
        let line = string_of(&chars_of(buf.as_str()));
        handle_cmd(k, line.as_str());
        buf.clear();
        true
    } else {
        false
    }
}

} // verus!
