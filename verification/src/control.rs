//! The control surface: the commands that an operator types, and what each
//! does to the session's flags.

use vstd::prelude::*;

verus! {

/// A command of the operator.
#[derive(Clone, Copy, Debug, PartialEq, Eq, Structural)]
pub enum Command {
    /// Show the session's settings.
    Like,
    /// Show how many frames were saved.
    Saved,
    /// Show how many frames were skipped.
    Skipped,
    /// Stop pulling frames until told to continue.
    Pause,
    /// Pull frames again.
    Continue,
    /// End the session.
    Stop,
}

/// Whether `c` is white space: a character with the Unicode property
/// White_Space.
pub open spec fn is_white_space(c: char) -> bool {
    let n = c as u32;
    (0x09 <= n <= 0x0d) || n == 0x20 || n == 0x85 || n == 0xa0 || n == 0x1680 || (0x2000 <= n
        <= 0x200a) || n == 0x2028 || n == 0x2029 || n == 0x202f || n == 0x205f || n == 0x3000
}

/// `s` without the white space it begins with.
pub open spec fn trim_start(s: Seq<char>) -> Seq<char>
    decreases s.len(),
{
    if s.len() > 0 && is_white_space(s.first()) {
        trim_start(s.drop_first())
    } else {
        s
    }
}

/// `s` without the white space it ends with.
pub open spec fn trim_end(s: Seq<char>) -> Seq<char>
    decreases s.len(),
{
    if s.len() > 0 && is_white_space(s.last()) {
        trim_end(s.drop_last())
    } else {
        s
    }
}

/// `s` without the white space at both of its ends.
pub open spec fn trimmed(s: Seq<char>) -> Seq<char> {
    trim_end(trim_start(s))
}

/// The command that the word `word` names, if it names one.
pub open spec fn command_named(word: Seq<char>) -> Option<Command> {
    if word == "like"@ {
        Some(Command::Like)
    } else if word == "saved"@ {
        Some(Command::Saved)
    } else if word == "skipped"@ {
        Some(Command::Skipped)
    } else if word == "pause"@ {
        Some(Command::Pause)
    } else if word == "continue"@ {
        Some(Command::Continue)
    } else if word == "stop"@ {
        Some(Command::Stop)
    } else {
        None
    }
}

/// `str::trim`: the line without the white space at its two ends, white
/// space being the characters with the Unicode property White_Space.
#[verifier::external_body]
fn trim(line: &str) -> (word: String)
    ensures
        word@ == trimmed(line@),
{
    line.trim().to_owned()
}

/// Whether `word` is the text `name`.
fn is_word(word: &String, name: &str) -> (same: bool)
    ensures
        same == (word@ == name@),
{
    let other = name.to_owned();
    *word == other
}

/// The command that `line` holds, the white space around it set aside;
/// `None` where the line holds no command.
pub fn parse_command(line: &str) -> (command: Option<Command>)
    ensures
        command == command_named(trimmed(line@)),
{
    let word = trim(line);
    if is_word(&word, "like") {
        Some(Command::Like)
    } else if is_word(&word, "saved") {
        Some(Command::Saved)
    } else if is_word(&word, "skipped") {
        Some(Command::Skipped)
    } else if is_word(&word, "pause") {
        Some(Command::Pause)
    } else if is_word(&word, "continue") {
        Some(Command::Continue)
    } else if is_word(&word, "stop") {
        Some(Command::Stop)
    } else {
        None
    }
}


/// The two flags through which the operator steers the stages.
#[derive(Clone, Copy, Debug, PartialEq, Eq, Structural)]
pub struct Flags {
    /// While set, no frame is pulled.
    pub pause: bool,
    /// Once set, the stages empty their pools and end.
    pub stop: bool,
}

impl Flags {
    /// The flags after `command`: `Pause` sets the pause flag, `Continue`
    /// clears it, `Stop` sets the stop flag, and a query changes nothing.
    pub open spec fn after(self, command: Command) -> Flags {
        match command {
            Command::Pause => Flags { pause: true, ..self },
            Command::Continue => Flags { pause: false, ..self },
            Command::Stop => Flags { stop: true, ..self },
            _ => self,
        }
    }

    /// The flags of a session that has just begun: running, not stopped.
    pub fn new() -> (flags: Flags)
        ensures
            flags == (Flags { pause: false, stop: false }),
    {
        Flags { pause: false, stop: false }
    }

    /// Carries out `command` on the flags.
    pub fn apply(&mut self, command: Command)
        ensures
            *final(self) == old(self).after(command),
    {
        match command {
            Command::Pause => {
                self.pause = true;
            },
            Command::Continue => {
                self.pause = false;
            },
            Command::Stop => {
                self.stop = true;
            },
            _ => {},
        }
    }
}

/// Whether the control surface reads no further command after `command`:
/// it ends with `Stop`.
pub fn ends_control(command: Command) -> (ends: bool)
    ensures
        ends == (command == Command::Stop),
{
    match command {
        Command::Stop => true,
        _ => false,
    }
}

/// A stop, once requested, is never taken back, whatever commands follow.
pub proof fn lemma_stop_is_final(flags: Flags, command: Command)
    requires
        flags.stop,
    ensures
        flags.after(command).stop,
{
}

/// Only `Pause` and `Continue` change whether the session is paused, and
/// each leaves it as its name says.
pub proof fn lemma_pause_follows_commands(flags: Flags, command: Command)
    ensures
        command == Command::Pause ==> flags.after(command).pause,
        command == Command::Continue ==> !flags.after(command).pause,
        command != Command::Pause && command != Command::Continue ==> flags.after(command).pause
            == flags.pause,
{
}

} // verus!
