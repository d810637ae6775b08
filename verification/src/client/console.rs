//! The debug console: what a typed command does and what it logs.

use vstd::prelude::*;

verus! {

/// How a console line is coloured: errors red, information green, the rest yellow.
#[derive(Copy, Clone, PartialEq, Eq, Debug, Structural)]
pub enum Level {
    Error,
    Warn,
    Info,
    Debug,
    Trace,
}

/// One line of the console's log.
pub struct ConsoleText {
    pub text: String,
    pub level: Level,
}

/// What a command typed into the console asks for.
pub enum ConsoleCommand {
    /// Nothing to do (an empty line, or a command without its argument).
    Nothing,
    /// Empty the log.
    Clear,
    /// Toggle free flight; the argument as typed.
    Noclip(String),
    /// Change the player's speed; the argument as typed.
    PlayerSpeed(String),
    /// A command the console does not know.
    Unknown(String),
}

/// Whether `c` is what the whitespace-separated `words` of a console line ask
/// for: `clear` needs no argument; `noclip` and `player_speed` take the second
/// word; any other first word with a second word is unknown; everything else
/// does nothing.
pub open spec fn means(words: Seq<Seq<char>>, c: ConsoleCommand) -> bool {
    match c {
        ConsoleCommand::Nothing => words.len() == 0 || (words[0] != "clear"@ && words.len() < 2),
        ConsoleCommand::Clear => words.len() > 0 && words[0] == "clear"@,
        ConsoleCommand::Noclip(a) => words.len() >= 2 && words[0] == "noclip"@ && a@ == words[1],
        ConsoleCommand::PlayerSpeed(a) => words.len() >= 2 && words[0] == "player_speed"@ && a@
            == words[1],
        ConsoleCommand::Unknown(a) => {
            &&& words.len() >= 2
            &&& words[0] != "clear"@
            &&& words[0] != "noclip"@
            &&& words[0] != "player_speed"@
            &&& a@ == words[0]
        },
    }
}

/// Interprets the whitespace-separated words of a console line.
pub fn interpret_command(words: &Vec<String>) -> (r: ConsoleCommand)
    ensures
        means(words@.map_values(|w: String| w@), r),
{
    let ghost ws = words@.map_values(|w: String| w@);
    if words.len() == 0 {
        return ConsoleCommand::Nothing;
    }
    let clear = String::from_str("clear");
    let noclip = String::from_str("noclip");
    let player_speed = String::from_str("player_speed");
    assert(ws[0] == words@[0]@);
    if words[0] == clear {
        return ConsoleCommand::Clear;
    }
    if words.len() < 2 {
        return ConsoleCommand::Nothing;
    }
    assert(ws[1] == words@[1]@);
    if words[0] == noclip {
        ConsoleCommand::Noclip(words[1].clone())
    } else if words[0] == player_speed {
        ConsoleCommand::PlayerSpeed(words[1].clone())
    } else {
        ConsoleCommand::Unknown(words[0].clone())
    }
}

/// The words of `line` as `str::split_whitespace` yields them, in order.
pub uninterp spec fn whitespace_words(line: Seq<char>) -> Seq<Seq<char>>;

/// `str::split_whitespace`, each word copied into a `String`: the words of
/// `line` between runs of whitespace, in order. The words are named, not
/// described.
#[verifier::external_body]
fn split_whitespace(line: &str) -> (r: Vec<String>)
    ensures
        r@.map_values(|w: String| w@) == whitespace_words(line@),
{
    line.split_whitespace().map(|w| w.to_string()).collect()
}

/// Interprets a line typed into the console: its whitespace-separated words,
/// as [`interpret_command`] reads them.
pub fn interpret_line(line: &str) -> (r: ConsoleCommand)
    ensures
        means(whitespace_words(line@), r),
{
    let words = split_whitespace(line);
    interpret_command(&words)
}

/// The log line of a `noclip` command: `noclip <argument>`, as information.
pub fn noclip_log(argument: &String) -> (r: ConsoleText)
    ensures
        r.text@ == "noclip "@ + argument@,
        r.level == Level::Info,
{
    let mut text = String::from_str("noclip ");
    text.append(argument.as_str());
    ConsoleText { text, level: Level::Info }
}

/// The log line of an accepted `player_speed` command:
/// `Changed player speed to: <argument>`, as information.
pub fn player_speed_log(argument: &String) -> (r: ConsoleText)
    ensures
        r.text@ == "Changed player speed to: "@ + argument@,
        r.level == Level::Info,
{
    let mut text = String::from_str("Changed player speed to: ");
    text.append(argument.as_str());
    ConsoleText { text, level: Level::Info }
}

/// The log line of an unknown command:
/// `Error: Couldn't find the command '<command>'`, as an error.
pub fn unknown_command_log(command: &String) -> (r: ConsoleText)
    ensures
        r.text@ == "Error: Couldn't find the command '"@ + command@ + "'"@,
        r.level == Level::Error,
{
    let mut text = String::from_str("Error: Couldn't find the command '");
    text.append(command.as_str());
    text.append("'");
    ConsoleText { text, level: Level::Error }
}

} // verus!
