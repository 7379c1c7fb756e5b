use vstd::prelude::*;
use vstd::string::StrSliceExecFns;
use vstd::string::StringExecFns;
use crate::text::{chars_of, trim_bounds, trimmed};

verus! {

/// What a line that begins with `save` but names no file is answered with.
pub const SAVE_USAGE: &'static str = ">> Usage: save <file_path>";

/// Why a line is no command.
#[derive(Debug, Clone, Copy, PartialEq, Eq, Structural)]
pub enum CommandError {
    /// The line begins with `save` and is not `save`, a space and a path.
    SaveUsage,
}

/// A command that the host carries out itself.
#[derive(Debug)]
pub enum CustomCommand {
    /// Write the transcript to the file at this path.
    Save(String),
}

/// A line that the player has entered.
#[derive(Debug)]
pub enum Command {
    /// A command for the host.
    Custom(CustomCommand),
    /// A line for the engine, as it was entered.
    Game(String),
}

/// The word that begins a host command.
pub open spec fn save_word() -> Seq<char> {
    seq!['s', 'a', 'v', 'e']
}

/// What a line means to the host: nothing where it does not begin with
/// `save`; else, trimmed, it must be `save`, one space and a path, which is
/// the rest of the line.
pub open spec fn host_command(line: Seq<char>) -> Result<Option<Seq<char>>, CommandError> {
    if !save_word().is_prefix_of(line) {
        Ok(None)
    } else if save_word().push(' ').is_prefix_of(trimmed(line)) {
        Ok(Some(trimmed(line).skip(5)))
    } else {
        Err(CommandError::SaveUsage)
    }
}

/// Whether the characters from `from` to `to` begin with `save` and, where
/// `spaced` is set, a space after it.
fn begins_with_save(chars: &Vec<char>, from: usize, to: usize, spaced: bool) -> (r: bool)
    requires
        from <= to <= chars@.len(),
    ensures
        r == (if spaced {
            save_word().push(' ')
        } else {
            save_word()
        }).is_prefix_of(chars@.subrange(from as int, to as int)),
{
    let ghost part = chars@.subrange(from as int, to as int);
    let need: usize = if spaced {
        5
    } else {
        4
    };
    if to - from < need {
        return false;
    }
    let r = chars[from] == 's' && chars[from + 1] == 'a' && chars[from + 2] == 'v' && chars[from
        + 3] == 'e' && (!spaced || chars[from + 4] == ' ');
    proof {
        let word = if spaced {
            save_word().push(' ')
        } else {
            save_word()
        };
        if r {
            assert(word =~= part.subrange(0, word.len() as int));
        } else {
            if word.is_prefix_of(part) {
                assert(word[0] == part[0]);
                assert(word[1] == part[1]);
                assert(word[2] == part[2]);
                assert(word[3] == part[3]);
                if spaced {
                    assert(word[4] == part[4]);
                }
            }
        }
    }
    r
}

impl CustomCommand {
    /// Reads a line as a host command: `host_command` of its characters.
    ///
    /// `None` means that the line is for the engine.
    pub fn parse(cmd: &str) -> (r: Result<Option<Self>, CommandError>)
        ensures
            match host_command(cmd@) {
                Ok(None) => r is Ok && r->Ok_0 is None,
                Ok(Some(path)) => r is Ok && r->Ok_0 is Some && r->Ok_0->Some_0->Save_0@ == path,
                Err(e) => r is Err && r->Err_0 == e,
            },
    {
        let chars = chars_of(cmd);
        assert(chars@.subrange(0, chars@.len() as int) =~= chars@);
        if !begins_with_save(&chars, 0, chars.len(), false) {
            return Ok(None);
        }
        let (from, to) = trim_bounds(&chars);
        if !begins_with_save(&chars, from, to, true) {
            return Err(CommandError::SaveUsage);
        }
        let path = String::from_str(cmd.substring_char(from + 5, to));
        assert(path@ =~= trimmed(cmd@).skip(5));
        Ok(Some(CustomCommand::Save(path)))
    }
}

impl Command {
    /// Reads a line: a host command where it is one, else a line for the
    /// engine, unchanged.
    pub fn parse(val: String) -> (r: Result<Self, CommandError>)
        ensures
            match host_command(val@) {
                Ok(None) => r is Ok && r->Ok_0 is Game && r->Ok_0->Game_0@ == val@,
                Ok(Some(path)) => r is Ok && r->Ok_0 is Custom && r->Ok_0->Custom_0->Save_0@
                    == path,
                Err(e) => r is Err && r->Err_0 == e,
            },
    {
        match CustomCommand::parse(val.as_str()) {
            Err(e) => Err(e),
            Ok(Some(x)) => Ok(Command::Custom(x)),
            Ok(None) => Ok(Command::Game(val)),
        }
    }
}

} // verus!
