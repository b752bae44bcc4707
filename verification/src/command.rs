//! What the operator asks for: the commands of the tool and their arguments,
//! read from text.

use vstd::prelude::*;
use vstd::string::*;
use crate::text::{chars_of, contains, occurs, parse_u8, read_u8, same_text};
use crate::upload::UploadError;

verus! {

/// The commands of the tool.
#[derive(Debug, Clone, Copy, PartialEq, Eq)]
pub enum CommandArg {
    /// List the modules of the controller.
    Scan,
    /// Bring modules up to the newest firmware at hand.
    Update,
    /// Write a chosen firmware to a module, whatever it runs.
    Overwrite,
}

/// Which modules an update is for.
#[derive(Debug, Clone, Copy, PartialEq, Eq)]
pub enum UpdateTarget {
    /// Every module of the controller.
    All,
    /// The module in one slot.
    Slot(u8),
}

/// How the tool ends after its work on the modules.
#[derive(Debug, Clone, Copy, PartialEq, Eq)]
pub enum Ending {
    /// Nothing failed: the services are started again and the tool leaves
    /// with 0.
    Done,
    /// Something failed, but every module is as it was: the services are
    /// started again and the tool leaves with a code that is not 0.
    Failed,
    /// A module is left with corrupted firmware: the services stay stopped
    /// and the tool leaves with a code that is not 0.
    Corrupted,
}

/// Whether one of `failures` left a module corrupted.
pub open spec fn any_corrupted(failures: Seq<UploadError>) -> bool {
    exists|i: int| 0 <= i < failures.len() && (#[trigger] failures[i]) is FirmwareCorrupted
}

/// The ending that follows from the failures of the uploads that were run.
pub open spec fn ending_of(failures: Seq<UploadError>) -> Ending {
    if any_corrupted(failures) {
        Ending::Corrupted
    } else if failures.len() > 0 {
        Ending::Failed
    } else {
        Ending::Done
    }
}

impl Ending {
    /// Tells how the tool ends, given the failures of the uploads that were
    /// run.
    pub fn of(failures: &[UploadError]) -> (ending: Ending)
        ensures
            ending == ending_of(failures@),
    {
        let mut i: usize = 0;
        while i < failures.len()
            invariant
                i <= failures@.len(),
                forall|k: int| 0 <= k < i ==> !((#[trigger] failures@[k]) is FirmwareCorrupted),
            decreases failures@.len() - i,
        {
            if failures[i].needs_wipe() {
                return Ending::Corrupted;
            }
            i += 1;
        }
        if failures.len() > 0 {
            Ending::Failed
        } else {
            Ending::Done
        }
    }

    /// The code that the tool leaves with: 0 if and only if nothing failed.
    pub fn exit_code(&self) -> (code: i32)
        ensures
            code == 0 <==> *self is Done,
            code == 0 || code == -1,
    {
        match self {
            Ending::Done => 0,
            _ => -1,
        }
    }

    /// Whether the services that were stopped are started again: they are,
    /// unless a module is left corrupted.
    pub fn restarts_services(&self) -> (restart: bool)
        ensures
            restart == !(*self is Corrupted),
    {
        match self {
            Ending::Corrupted => false,
            _ => true,
        }
    }
}

/// The command that the word `word` names. Commands are written in lower
/// case.
pub open spec fn command_of(word: Seq<char>) -> Option<CommandArg> {
    if word == "scan"@ {
        Some(CommandArg::Scan)
    } else if word == "update"@ {
        Some(CommandArg::Update)
    } else if word == "overwrite"@ {
        Some(CommandArg::Overwrite)
    } else {
        None
    }
}

/// The target that the word `word` names: `all`, or the number of a slot.
pub open spec fn target_of(word: Seq<char>) -> Option<UpdateTarget> {
    if word == "all"@ {
        Some(UpdateTarget::All)
    } else {
        match parse_u8(word) {
            Some(slot) => Some(UpdateTarget::Slot(slot)),
            None => None,
        }
    }
}

impl CommandArg {
    /// The word that names the command.
    pub open spec fn word(self) -> Seq<char> {
        match self {
            CommandArg::Scan => "scan"@,
            CommandArg::Update => "update"@,
            CommandArg::Overwrite => "overwrite"@,
        }
    }

    /// The word that names the command.
    pub fn name(&self) -> (word: &'static str)
        ensures
            word@ == self.word(),
    {
        match self {
            CommandArg::Scan => "scan",
            CommandArg::Update => "update",
            CommandArg::Overwrite => "overwrite",
        }
    }

    /// Reads a command from the word that names it.
    pub fn parse(word: &str) -> (command: Option<CommandArg>)
        ensures
            command == command_of(word@),
    {
        let chars = chars_of(word);
        if same_text(chars.as_slice(), chars_of("scan").as_slice()) {
            Some(CommandArg::Scan)
        } else if same_text(chars.as_slice(), chars_of("update").as_slice()) {
            Some(CommandArg::Update)
        } else if same_text(chars.as_slice(), chars_of("overwrite").as_slice()) {
            Some(CommandArg::Overwrite)
        } else {
            None
        }
    }
}

impl UpdateTarget {
    /// Reads the target of an update.
    pub fn parse(word: &str) -> (target: Option<UpdateTarget>)
        ensures
            target == target_of(word@),
    {
        let chars = chars_of(word);
        if same_text(chars.as_slice(), chars_of("all").as_slice()) {
            Some(UpdateTarget::All)
        } else {
            match read_u8(chars.as_slice()) {
                Some(slot) => Some(UpdateTarget::Slot(slot)),
                None => None,
            }
        }
    }
}

/// Whether a service runs, by what the service manager reports of it: it
/// reports `active` for one that runs, and a word with `in` in it, such as
/// `inactive`, for one that does not.
pub fn service_is_active(report: &str) -> (active: bool)
    ensures
        active == !occurs(report@, "in"@),
{
    let chars = chars_of(report);
    !contains(chars.as_slice(), chars_of("in").as_slice())
}

/// Every command is read back from the word that names it.
pub proof fn law_command_names_round_trip(command: CommandArg)
    ensures
        command_of(command.word()) == Some(command),
{
    reveal_strlit("scan");
    reveal_strlit("update");
    reveal_strlit("overwrite");
    assert("scan"@.len() == 4);
    assert("update"@.len() == 6);
    assert("overwrite"@.len() == 9);
}

} // verus!
