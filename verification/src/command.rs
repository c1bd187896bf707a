//! Commands: what a request names and asks for.

use vstd::prelude::*;
use vstd::string::*;
use crate::text::{parse_decimal, parsed_decimal, to_chars, views};

verus! {

/// A request, read from the words of an array frame.
#[derive(Debug)]
pub enum Command {
    Ping,
    /// Sends the text back.
    Echo(String),
    /// Writes `value` under `key`, with an optional time to live in
    /// milliseconds.
    SetKey { key: String, value: String, ttl: Option<u64> },
    /// Reads the key.
    GetKey(String),
    Info,
    ReplConf,
    Psync,
    /// A request that names no command of this server.
    Unknown,
}

/// A command as mathematical values.
pub enum CommandView {
    Ping,
    Echo(Seq<char>),
    SetKey { key: Seq<char>, value: Seq<char>, ttl: Option<u64> },
    GetKey(Seq<char>),
    Info,
    ReplConf,
    Psync,
    Unknown,
}

impl View for Command {
    type V = CommandView;

    open spec fn view(&self) -> CommandView {
        match self {
            Command::Ping => CommandView::Ping,
            Command::Echo(text) => CommandView::Echo(text@),
            Command::SetKey { key, value, ttl } => CommandView::SetKey {
                key: key@,
                value: value@,
                ttl: *ttl,
            },
            Command::GetKey(key) => CommandView::GetKey(key@),
            Command::Info => CommandView::Info,
            Command::ReplConf => CommandView::ReplConf,
            Command::Psync => CommandView::Psync,
            Command::Unknown => CommandView::Unknown,
        }
    }
}

/// Why a request that names a command cannot be run.
#[derive(Debug, Clone, Copy, PartialEq, Eq, Structural)]
pub enum CommandError {
    /// The number of arguments is wrong, the marker before the time to live
    /// is not `PX`, or the time to live is not a number.
    InvalidArguments,
}

/// The upper-case form of an ASCII letter; any other character is itself.
pub open spec fn upper(c: char) -> char {
    if 'a' <= c && c <= 'z' {
        ((c as u8 - 32) as u8) as char
    } else {
        c
    }
}

/// Whether two texts are the same but for the case of their ASCII letters.
pub open spec fn same_ignoring_case(a: Seq<char>, b: Seq<char>) -> bool {
    a.len() == b.len() && forall|i: int| 0 <= i < a.len() ==> upper(#[trigger] a[i]) == upper(b[i])
}

/// What a `SET` request asks for: `SET key value`, or `SET key value PX ms`
/// with the marker in either case and `ms` a decimal number.
pub open spec fn parsed_set(words: Seq<Seq<char>>) -> Result<CommandView, CommandError> {
    if words.len() == 3 {
        Ok(CommandView::SetKey { key: words[1], value: words[2], ttl: None })
    } else if words.len() == 5 && same_ignoring_case(words[3], "PX"@) {
        match parsed_decimal(words[4]) {
            Some(ms) => Ok(CommandView::SetKey { key: words[1], value: words[2], ttl: Some(ms) }),
            None => Err(CommandError::InvalidArguments),
        }
    } else {
        Err(CommandError::InvalidArguments)
    }
}

/// What the words of a request ask for. The first word names the command,
/// in either case. `ECHO` sends back the last word. `SET` and `GET` are held
/// to their number of arguments; the other commands take any. No word, or a
/// first word that names no command, is an unknown request.
pub open spec fn parsed_command(words: Seq<Seq<char>>) -> Result<CommandView, CommandError> {
    if words.len() == 0 {
        Ok(CommandView::Unknown)
    } else if same_ignoring_case(words[0], "PING"@) {
        Ok(CommandView::Ping)
    } else if same_ignoring_case(words[0], "ECHO"@) {
        Ok(CommandView::Echo(words.last()))
    } else if same_ignoring_case(words[0], "SET"@) {
        parsed_set(words)
    } else if same_ignoring_case(words[0], "GET"@) {
        if words.len() == 2 {
            Ok(CommandView::GetKey(words[1]))
        } else {
            Err(CommandError::InvalidArguments)
        }
    } else if same_ignoring_case(words[0], "INFO"@) {
        Ok(CommandView::Info)
    } else if same_ignoring_case(words[0], "REPLCONF"@) {
        Ok(CommandView::ReplConf)
    } else if same_ignoring_case(words[0], "PSYNC"@) {
        Ok(CommandView::Psync)
    } else {
        Ok(CommandView::Unknown)
    }
}

/// Whether the first word of `words` names one of this server's commands.
pub open spec fn names_command(words: Seq<Seq<char>>) -> bool {
    words.len() > 0 && (same_ignoring_case(words[0], "PING"@) || same_ignoring_case(
        words[0],
        "ECHO"@,
    ) || same_ignoring_case(words[0], "SET"@) || same_ignoring_case(words[0], "GET"@)
        || same_ignoring_case(words[0], "INFO"@) || same_ignoring_case(words[0], "REPLCONF"@)
        || same_ignoring_case(words[0], "PSYNC"@))
}

/// The outcome of reading a request, as mathematical values.
pub open spec fn outcome_view(res: Result<Command, CommandError>) -> Result<
    CommandView,
    CommandError,
> {
    match res {
        Ok(command) => Ok(command@),
        Err(e) => Err(e),
    }
}

fn to_upper(c: char) -> (u: char)
    ensures
        u == upper(c),
{
    if 'a' <= c && c <= 'z' {
        (c as u8 - 32) as char
    } else {
        c
    }
}

/// Compares a word with a name, ignoring the case of ASCII letters.
pub fn eq_ignoring_case(word: &str, name: &str) -> (same: bool)
    ensures
        same == same_ignoring_case(word@, name@),
{
    let a = to_chars(word);
    let b = to_chars(name);
    if a.len() != b.len() {
        return false;
    }
    let mut i: usize = 0;
    while i < a.len()
        invariant
            i <= a@.len(),
            a@ == word@,
            b@ == name@,
            a@.len() == b@.len(),
            forall|j: int| 0 <= j < i ==> upper(#[trigger] a@[j]) == upper(b@[j]),
        decreases a@.len() - i,
    {
        if to_upper(a[i]) != to_upper(b[i]) {
            return false;
        }
        i += 1;
    }
    true
}

fn parse_set(words: &Vec<String>) -> (res: Result<Command, CommandError>)
    ensures
        outcome_view(res) == parsed_set(views(words@)),
{
    if words.len() == 3 {
        Ok(Command::SetKey { key: words[1].clone(), value: words[2].clone(), ttl: None })
    } else if words.len() == 5 && eq_ignoring_case(words[3].as_str(), "PX") {
        let digits = to_chars(words[4].as_str());
        match parse_decimal(&digits) {
            Some(ms) => Ok(
                Command::SetKey { key: words[1].clone(), value: words[2].clone(), ttl: Some(ms) },
            ),
            None => Err(CommandError::InvalidArguments),
        }
    } else {
        Err(CommandError::InvalidArguments)
    }
}

/// Reads the words of a request as a command.
pub fn parse_command(words: &Vec<String>) -> (res: Result<Command, CommandError>)
    ensures
        outcome_view(res) == parsed_command(views(words@)),
        res is Err ==> names_command(views(words@)),
{
    if words.len() == 0 {
        return Ok(Command::Unknown);
    }
    let name = words[0].as_str();
    if eq_ignoring_case(name, "PING") {
        Ok(Command::Ping)
    } else if eq_ignoring_case(name, "ECHO") {
        Ok(Command::Echo(words[words.len() - 1].clone()))
    } else if eq_ignoring_case(name, "SET") {
        parse_set(words)
    } else if eq_ignoring_case(name, "GET") {
        if words.len() == 2 {
            Ok(Command::GetKey(words[1].clone()))
        } else {
            Err(CommandError::InvalidArguments)
        }
    } else if eq_ignoring_case(name, "INFO") {
        Ok(Command::Info)
    } else if eq_ignoring_case(name, "REPLCONF") {
        Ok(Command::ReplConf)
    } else if eq_ignoring_case(name, "PSYNC") {
        Ok(Command::Psync)
    } else {
        Ok(Command::Unknown)
    }
}

/// A request whose first word names no command of this server is unknown.
pub proof fn lemma_unknown_command(words: Seq<Seq<char>>)
    requires
        !names_command(words),
    ensures
        parsed_command(words) == Ok::<CommandView, CommandError>(CommandView::Unknown),
{
}

} // verus!
