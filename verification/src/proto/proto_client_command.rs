//! What a client may ask for.

use vstd::prelude::*;

verus! {

/// The mathematical value of a [`Command`].
pub enum CommandModel {
    Add(Seq<char>),
    Remove(Seq<char>),
    PrintState(bool),
    PrintInternals(bool),
    PrintMatrix(bool),
    RemoveRandom(bool),
}

/// A client command.
pub enum Command {
    Add(String),
    Remove(String),
    PrintState(bool),
    PrintInternals(bool),
    PrintMatrix(bool),
    RemoveRandom(bool),
}

impl View for Command {
    type V = CommandModel;

    open spec fn view(&self) -> CommandModel {
        match self {
            Command::Add(value) => CommandModel::Add(value@),
            Command::Remove(value) => CommandModel::Remove(value@),
            Command::PrintState(b) => CommandModel::PrintState(*b),
            Command::PrintInternals(b) => CommandModel::PrintInternals(*b),
            Command::PrintMatrix(b) => CommandModel::PrintMatrix(*b),
            Command::RemoveRandom(b) => CommandModel::RemoveRandom(*b),
        }
    }
}

} // verus!
