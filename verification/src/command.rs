//! The operator's commands, one per input line.

use vstd::prelude::*;

verus! {

/// What the operator asks for.
#[derive(Debug)]
pub enum Command {
    /// Fetch the file of the request with this identifier.
    Get(String),
    /// Submit the file at this path for storage.
    Submit(String),
}

/// What a [`Command`] holds.
pub ghost enum CommandView {
    Get(Seq<char>),
    Submit(Seq<char>),
}

impl View for Command {
    type V = CommandView;

    open spec fn view(&self) -> CommandView {
        match self {
            Command::Get(id) => CommandView::Get(id@),
            Command::Submit(path) => CommandView::Submit(path@),
        }
    }
}

/// Whether `line` opens with the word `GET`.
pub open spec fn opens_with_get(line: Seq<char>) -> bool {
    line.len() >= 3 && line[0] == 'G' && line[1] == 'E' && line[2] == 'T'
}

/// The command that `line` spells. A line that opens with `GET` asks for the
/// request named from the fifth character on, whatever the fourth is; any
/// other line is the path of a file to submit.
pub open spec fn command_of(line: Seq<char>) -> CommandView {
    if opens_with_get(line) {
        CommandView::Get(
            if line.len() > 4 {
                line.subrange(4, line.len() as int)
            } else {
                Seq::empty()
            },
        )
    } else {
        CommandView::Submit(line)
    }
}

/// Reads one input line as a command.
pub fn parse_command(line: &str) -> (command: Command)
    ensures
        command@ == command_of(line@),
{
    let len = line.unicode_len();
    if len >= 3 && line.get_char(0) == 'G' && line.get_char(1) == 'E' && line.get_char(2) == 'T' {
        if len > 4 {
            Command::Get(line.substring_char(4, len).to_owned())
        } else {
            Command::Get(String::new())
        }
    } else {
        Command::Submit(line.to_owned())
    }
}

} // verus!
