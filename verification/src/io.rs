//! Reading the game: its console log and the output of its commands, and
//! where the messages for them go.
use crate::command_manager::{Command, CommandManagerMessage};
use vstd::prelude::*;

pub mod regexes;
pub mod g15;
pub mod filewatcher;

verus! {

/// A message to the log file watcher.
pub enum FileWatcherCommand {
    SetWatchedFile(String),
}

/// A message to the input side: follow another log file, use another RCON
/// password, or run a command.
pub enum IOManagerMessage {
    SetLogFilePath(String),
    SetRconPassword(String),
    RunCommand(Command),
}

/// Where a message to the input side goes.
pub enum IORoute {
    FileWatcher(FileWatcherCommand),
    CommandManager(CommandManagerMessage),
}

impl IOManagerMessage {
    /// Where the message goes: a log file to the file watcher, the rest to
    /// the RCON side.
    pub fn route(self) -> (r: IORoute)
        ensures
            match self {
                IOManagerMessage::SetLogFilePath(p) => r == IORoute::FileWatcher(FileWatcherCommand::SetWatchedFile(p)),
                IOManagerMessage::SetRconPassword(p) => r == IORoute::CommandManager(
                    CommandManagerMessage::SetRconPassword(p),
                ),
                IOManagerMessage::RunCommand(c) => r == IORoute::CommandManager(CommandManagerMessage::RunCommand(c)),
            },
    {
        match self {
            IOManagerMessage::SetLogFilePath(p) => IORoute::FileWatcher(FileWatcherCommand::SetWatchedFile(p)),
            IOManagerMessage::SetRconPassword(p) => IORoute::CommandManager(CommandManagerMessage::SetRconPassword(p)),
            IOManagerMessage::RunCommand(c) => IORoute::CommandManager(CommandManagerMessage::RunCommand(c)),
        }
    }
}

} // verus!
