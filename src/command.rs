use vstd::prelude::*;

use crate::request::{opcode_text_value, parse_opcode_text, trim_text, trimmed};

verus! {

/// What one line typed at the interactive client asks for.
#[derive(Clone, Copy, Debug, PartialEq, Eq, Structural)]
pub enum Command {
    /// A blank line: nothing to do.
    Empty,
    Quit,
    State,
    Help,
    /// `run` with a valid opcode.
    Run(u16),
    /// `run` with an argument that is not a 16-bit number; nothing is sent.
    InvalidOpcode,
    Unknown,
}

/// The command that a trimmed input line names.
pub open spec fn command_of(t: Seq<char>) -> Command {
    if t.len() == 0 {
        Command::Empty
    } else if t == "quit"@ || t == "exit"@ || t == "q"@ {
        Command::Quit
    } else if t == "state"@ || t == "s"@ {
        Command::State
    } else if t == "help"@ || t == "h"@ {
        Command::Help
    } else if t.len() >= 4 && t.subrange(0, 4) == "run "@ {
        match opcode_text_value(trimmed(t.subrange(4, t.len() as int))) {
            Ok(v) => Command::Run(v),
            Err(_) => Command::InvalidOpcode,
        }
    } else {
        Command::Unknown
    }
}

/// Whether the first `lit@.len()` characters of `t` are those of `lit`
/// (with `whole`, whether `t` is exactly `lit`).
fn starts_with_text(t: &str, lit: &str, whole: bool) -> (r: bool)
    ensures
        whole ==> r == (t@ == lit@),
        !whole ==> r == (t@.len() >= lit@.len() && t@.subrange(0, lit@.len() as int) == lit@),
{
    let n = t.unicode_len();
    let m = lit.unicode_len();
    if n < m || (whole && n != m) {
        assert(whole ==> t@ != lit@ || n == m);
        return false;
    }
    let mut i: usize = 0;
    while i < m
        invariant
            m == lit@.len(),
            n == t@.len(),
            m <= n,
            i <= m,
            forall|j: int| 0 <= j < i ==> t@[j] == lit@[j],
        decreases m - i,
    {
        if t.get_char(i) != lit.get_char(i) {
            assert(t@.subrange(0, m as int)[i as int] != lit@[i as int]);
            return false;
        }
        i = i + 1;
    }
    assert(t@.subrange(0, m as int) =~= lit@);
    if whole {
        assert(t@ =~= lit@);
    }
    true
}

/// Interprets one line typed at the interactive client.
pub fn interpret_command(line: &str) -> (r: Command)
    ensures
        r == command_of(trimmed(line@)),
{
    let t = trim_text(line);
    if t.unicode_len() == 0 {
        return Command::Empty;
    }
    if starts_with_text(t, "quit", true) || starts_with_text(t, "exit", true) || starts_with_text(
        t,
        "q",
        true,
    ) {
        return Command::Quit;
    }
    if starts_with_text(t, "state", true) || starts_with_text(t, "s", true) {
        return Command::State;
    }
    if starts_with_text(t, "help", true) || starts_with_text(t, "h", true) {
        return Command::Help;
    }
    if starts_with_text(t, "run ", false) {
        proof {
            reveal_strlit("run ");
        }
        let arg = t.substring_char(4, t.unicode_len());
        return match parse_opcode_text(trim_text(arg)) {
            Ok(v) => Command::Run(v),
            Err(_) => Command::InvalidOpcode,
        };
    }
    Command::Unknown
}

} // verus!
