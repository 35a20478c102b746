use crate::fs::memfs::texts;
use crate::text::push_char;
use vstd::prelude::*;
use vstd::string::StringExecFns;

pub mod broom;
pub mod network;
pub mod settings;
pub mod taskmgr;
pub mod web;

verus! {

/// The text of the notes window.
pub fn notes() -> (text: &'static str)
    ensures
        text@ == "Notes\n- Welcome to waemom\n- Demo UI with dock, topbar, and animated windows\n"@,
{
    "Notes\n- Welcome to waemom\n- Demo UI with dock, topbar, and animated windows\n"
}

/// The text of the about window.
pub fn about() -> (text: &'static str)
    ensures
        text@ == "About waemom\nA tiny hobby OS kernel demo.\n"@,
{
    "About waemom\nA tiny hobby OS kernel demo.\n"
}

/// The lines of the files window for the first `n` names: each name after a
/// dash and a blank, on a line of its own.
pub open spec fn file_lines(names: Seq<Seq<char>>, n: nat) -> Seq<char>
    decreases n,
{
    if n == 0 {
        Seq::empty()
    } else {
        file_lines(names, (n - 1) as nat) + "- "@ + names[n - 1] + seq!['\n']
    }
}

/// The text of the files window: a heading, then a line for each name.
pub fn files(list: &Vec<String>) -> (text: String)
    ensures
        text@ == "Files\n"@ + file_lines(texts(list@), list@.len()),
{
    let mut s = String::from_str("Files\n");
    let mut i: usize = 0;
    proof {
        assert(s@ =~= "Files\n"@ + file_lines(texts(list@), 0));
    }
    while i < list.len()
        invariant
            i <= list@.len(),
            s@ == "Files\n"@ + file_lines(texts(list@), i as nat),
        decreases list@.len() - i,
    {
        let ghost before = s@;
        s.append("- ");
        s.append(list[i].as_str());
        push_char(&mut s, '\n');
        proof {
            assert(texts(list@)[i as int] == list@[i as int]@);
            assert(s@ =~= "Files\n"@ + (file_lines(texts(list@), i as nat) + "- "@ + list@[i as int]@ + seq!['\n']));
        }
        i += 1;
    }
    s
}

} // verus!
