//! Descriptions of runners as a user writes them: `command:<shell words>` for a program that
//! is run once per turn, `file:<path>` or `local:<path>` (or a bare path) for a sandboxed
//! module.
use crate::text::{find_char, first_at, same_text};
use vstd::prelude::*;
use vstd::string::*;

verus! {

/// The words of `s` under shell quoting rules, as shell-words splits them, or `None` where the
/// quoting of `s` is malformed.
pub uninterp spec fn shell_split(s: Seq<char>) -> Option<Seq<Seq<char>>>;

/// Relies on `shell_words::split`: its result depends on `s` alone, and it fails only on
/// malformed quoting.
#[verifier::external_body]
fn split_words(s: &str) -> (r: Option<Vec<String>>)
    ensures
        match r {
            Some(v) => shell_split(s@) == Some(v@.map_values(|w: String| w@)),
            None => shell_split(s@) is None,
        },
{
    shell_words::split(s).ok()
}

/// A description of how to run a player.
#[derive(Debug, Clone)]
pub enum RunnerDesc {
    /// Run `command` with `args` as a program, once per turn.
    Command { command: String, args: Vec<String> },
    /// Load the sandboxed module at the path `source`.
    Source { source: String },
}

/// Why a runner description was refused.
#[derive(Debug, Clone)]
pub enum RunnerDescError {
    /// The command text is not well-formed shell words.
    NotShellWords,
    /// The command text holds no word.
    NoCommand,
    /// The kind before the colon is none of `command`, `file` and `local`.
    UnknownType(String),
}

/// Whether `r` describes the module at `path`.
pub open spec fn is_source(r: Result<RunnerDesc, RunnerDescError>, path: Seq<char>) -> bool {
    r matches Ok(RunnerDesc::Source { source }) && source@ == path
}

/// Whether `r` is what the command text `text` describes.
pub open spec fn is_command(r: Result<RunnerDesc, RunnerDescError>, text: Seq<char>) -> bool {
    match shell_split(text) {
        None => r matches Err(RunnerDescError::NotShellWords),
        Some(words) => if words.len() == 0 {
            r matches Err(RunnerDescError::NoCommand)
        } else {
            r matches Ok(RunnerDesc::Command { command, args }) && command@ == words[0]
                && args@.map_values(|w: String| w@) == words.drop_first()
        },
    }
}

impl RunnerDesc {
    /// Parses a runner description. Without a colon the text is the path of a module.
    /// Otherwise the text before the first colon is the kind: `file` and `local` take the rest
    /// as a path, `command` splits it into shell words, the first of which is the program.
    pub fn parse(s: &str) -> (r: Result<RunnerDesc, RunnerDescError>)
        ensures
            (forall|j: int| 0 <= j < s@.len() ==> s@[j] != ':') ==> is_source(r, s@),
            forall|i: int|
                #[trigger] first_at(s@, ':', i) ==> {
                    let kind = s@.subrange(0, i);
                    let rest = s@.subrange(i + 1, s@.len() as int);
                    if kind == "file"@ || kind == "local"@ {
                        is_source(r, rest)
                    } else if kind == "command"@ {
                        is_command(r, rest)
                    } else {
                        r matches Err(RunnerDescError::UnknownType(k)) && k@ == kind
                    }
                },
    {
        match find_char(s, ':') {
            None => RunnerDesc::from_path(s.to_owned()),
            Some(i) => {
                let n = s.unicode_len();
                let kind = s.substring_char(0, i);
                let rest = s.substring_char(i + 1, n);
                proof {
                    reveal_strlit("file");
                    reveal_strlit("local");
                    reveal_strlit("command");
                    assert forall|j: int| #[trigger] first_at(s@, ':', j) implies j == i by {
                        if j < i {
                            assert(s@[j] != ':');
                        } else if j > i {
                            assert(s@[i as int] != ':');
                        }
                    }
                }
                if same_text(kind, "file") || same_text(kind, "local") {
                    RunnerDesc::from_path(rest.to_owned())
                } else if same_text(kind, "command") {
                    RunnerDesc::parse_command(rest)
                } else {
                    Err(RunnerDescError::UnknownType(kind.to_owned()))
                }
            },
        }
    }

    /// The description of the module at `source`.
    pub fn from_path(source: String) -> (r: Result<RunnerDesc, RunnerDescError>)
        ensures
            is_source(r, source@),
    {
        Ok(RunnerDesc::Source { source })
    }

    /// The description of a program given as shell words: the first word is the program, the
    /// others are its arguments.
    pub fn parse_command(text: &str) -> (r: Result<RunnerDesc, RunnerDescError>)
        ensures
            is_command(r, text@),
    {
        match split_words(text) {
            None => Err(RunnerDescError::NotShellWords),
            Some(words) => {
                let mut words = words;
                if words.len() == 0 {
                    Err(RunnerDescError::NoCommand)
                } else {
                    let ghost all = words@;
                    let command = words.remove(0);
                    assert(words@ == all.drop_first());
                    assert(words@.map_values(|w: String| w@) == all.map_values(
                        |w: String| w@,
                    ).drop_first());
                    Ok(RunnerDesc::Command { command, args: words })
                }
            },
        }
    }
}

} // verus!
