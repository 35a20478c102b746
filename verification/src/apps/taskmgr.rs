use crate::text::{chars_of, decimal, decimal_of, pad_right, push_char, push_chars, push_fill};
use vstd::prelude::*;
use vstd::string::StringExecFns;

verus! {

/// What the task manager shows of a task.
pub struct TaskInfo {
    pub pid: u32,
    pub name: String,
    pub state: &'static str,
}

/// The line of one task: its identifier in a column of six characters, its
/// name in a column of twelve, then its state.
pub open spec fn task_line(t: TaskInfo) -> Seq<char> {
    pad_right(decimal(t.pid as nat), 6) + seq![' '] + pad_right(t.name@, 12) + seq![' '] + t.state@ + seq!['\n']
}

/// The lines of the first `n` tasks.
pub open spec fn task_lines(tasks: Seq<TaskInfo>, n: nat) -> Seq<char>
    decreases n,
{
    if n == 0 {
        Seq::empty()
    } else {
        task_lines(tasks, (n - 1) as nat) + task_line(tasks[n - 1])
    }
}

/// Appends `chars`, with blanks after them up to `width` characters.
fn push_column(s: &mut String, chars: &Vec<char>, width: usize)
    ensures
        final(s)@ == old(s)@ + pad_right(chars@, width as nat),
{
    push_chars(s, chars);
    if chars.len() < width {
        push_fill(s, ' ', width - chars.len());
    }
    proof {
        assert(s@ =~= old(s)@ + pad_right(chars@, width as nat));
    }
}

/// The text of the task manager window: a heading, then a line for each task.
pub fn view(tasks: &Vec<TaskInfo>) -> (text: String)
    ensures
        text@ == "Task Manager\n\nPID    NAME         STATE\n"@ + task_lines(tasks@, tasks@.len()),
{
    let mut s = String::from_str("Task Manager\n\nPID    NAME         STATE\n");
    let ghost head = s@;
    let mut i: usize = 0;
    proof {
        assert(s@ =~= head + task_lines(tasks@, 0));
    }
    while i < tasks.len()
        invariant
            i <= tasks@.len(),
            head == "Task Manager\n\nPID    NAME         STATE\n"@,
            s@ == head + task_lines(tasks@, i as nat),
        decreases tasks@.len() - i,
    {
        let t = &tasks[i];
        push_column(&mut s, &decimal_of(t.pid as u64), 6);
        push_char(&mut s, ' ');
        push_column(&mut s, &chars_of(t.name.as_str()), 12);
        push_char(&mut s, ' ');
        s.append(t.state);
        push_char(&mut s, '\n');
        proof {
            assert(s@ =~= head + (task_lines(tasks@, i as nat) + task_line(tasks@[i as int])));
        }
        i += 1;
    }
    s
}

} // verus!
