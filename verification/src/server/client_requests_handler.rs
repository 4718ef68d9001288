//! What the commands of clients ask of the engine, and what clients are told.

use vstd::prelude::*;
use vstd::string::StringExecFns;

use crate::crdt::or_set as sets;
use crate::crdt::or_set::{OpModel, OrSet, OrSetOp, SetModel};
use crate::crdt::ElementCodec;
use crate::engine::crdt_engine as engines;
use crate::logical_clocks::dot_version_vector::DotModel;
use crate::network::protocol;
use crate::network::protocol::frame;
use crate::proto::proto_client_command::{Command, CommandModel};
use crate::text as texts;
use crate::text::strip_prefix;

verus! {

/// The mathematical value of a [`ClientStep`].
pub enum ClientStepModel {
    Operate(OpModel<Seq<char>>),
    AskElement,
    PrintState,
    PrintInternals,
    PrintMatrix,
    Answer(Seq<char>),
}

/// What is to be done next about a client's command.
pub enum ClientStep {
    /// Hand an operation to the engine, and tell the client how that went.
    Operate(OrSetOp<String>),
    /// Ask the engine for some element, and go on with it.
    AskElement,
    /// Ask the engine for its state, and tell the client.
    PrintState,
    /// Ask the engine for its state and metadata, and tell the client.
    PrintInternals,
    /// Ask the engine for its matrix, and tell the client.
    PrintMatrix,
    /// Tell the client.
    Answer(String),
}

impl View for ClientStep {
    type V = ClientStepModel;

    open spec fn view(&self) -> ClientStepModel {
        match self {
            ClientStep::Operate(op) => ClientStepModel::Operate(op@),
            ClientStep::AskElement => ClientStepModel::AskElement,
            ClientStep::PrintState => ClientStepModel::PrintState,
            ClientStep::PrintInternals => ClientStepModel::PrintInternals,
            ClientStep::PrintMatrix => ClientStepModel::PrintMatrix,
            ClientStep::Answer(text) => ClientStepModel::Answer(text@),
        }
    }
}

/// The value of a command that may not be there.
pub open spec fn command_value(command: Option<Command>) -> Option<CommandModel> {
    match command {
        Some(c) => Some(c@),
        None => None,
    }
}

/// What a command asks for.
pub open spec fn step_for(command: Option<CommandModel>) -> ClientStepModel {
    match command {
        Some(CommandModel::Add(value)) => ClientStepModel::Operate(OpModel::Add(value)),
        Some(CommandModel::Remove(value)) => ClientStepModel::Operate(OpModel::Remove(value)),
        Some(CommandModel::RemoveRandom(_)) => ClientStepModel::AskElement,
        Some(CommandModel::PrintState(_)) => ClientStepModel::PrintState,
        Some(CommandModel::PrintInternals(_)) => ClientStepModel::PrintInternals,
        Some(CommandModel::PrintMatrix(_)) => ClientStepModel::PrintMatrix,
        None => ClientStepModel::Answer("error: empty command"@),
    }
}

/// What a command asks for.
pub fn handle_command(command: Option<Command>) -> (r: ClientStep)
    ensures
        r@ == step_for(command_value(command)),
{
    match command {
        Some(Command::Add(value)) => ClientStep::Operate(OrSetOp::Add(value)),
        Some(Command::Remove(value)) => ClientStep::Operate(OrSetOp::Remove(value)),
        Some(Command::RemoveRandom(_)) => ClientStep::AskElement,
        Some(Command::PrintState(_)) => ClientStep::PrintState,
        Some(Command::PrintInternals(_)) => ClientStep::PrintInternals,
        Some(Command::PrintMatrix(_)) => ClientStep::PrintMatrix,
        None => ClientStep::Answer("error: empty command".to_owned()),
    }
}

/// What to do with the element that the engine named: remove it, unless the
/// engine reported an error, which the client is told.
pub open spec fn step_after_element(response: Seq<char>) -> ClientStepModel {
    if texts::after_prefix(response, "error:"@) is Some {
        ClientStepModel::Answer(response)
    } else {
        ClientStepModel::Operate(OpModel::Remove(response))
    }
}

/// What to do with the element that the engine named.
pub fn remove_named(response: String) -> (r: ClientStep)
    ensures
        r@ == step_after_element(response@),
{
    if strip_prefix(response.as_str(), "error:").is_some() {
        ClientStep::Answer(response)
    } else {
        ClientStep::Operate(OrSetOp::Remove(response))
    }
}

/// A command to remove a random element removes one: what the engine names is
/// in the set, the next step is to remove it, and then it is gone. A name that
/// begins as an error does is taken for one.
pub proof fn law_random_removal_removes(
    s: SetModel<Seq<char>>,
    response: Seq<char>,
    dot: DotModel,
)
    requires
        engines::offers::<OrSet<String>>(s, response),
        texts::after_prefix(response, "error:"@) is None,
    ensures
        sets::is_member(s, response),
        step_after_element(response) == ClientStepModel::Operate(OpModel::Remove(response)),
        !sets::is_member(sets::applied(s, dot, OpModel::Remove(response)), response),
{
    reveal_strlit("error:");
    reveal_strlit("error: empty crdt");
    if response == engines::no_element() {
        assert(response.take(6) =~= "error:"@);
    }
}

/// What a client is told of a failure.
pub open spec fn failure_text(message: Seq<char>) -> Seq<char> {
    "error: "@ + message
}

/// What a client is told of a failure: a command that could not be read, or
/// an engine that could not be reached.
pub fn failure(message: &str) -> (r: String)
    ensures
        r@ == failure_text(message@),
{
    let mut r = "error: ".to_owned();
    r.append(message);
    r
}

/// What a client is told of an operation, by what came of handing it to the
/// engine.
pub fn send_engine_request(outcome: Result<(), String>) -> (r: String)
    ensures
        match outcome {
            Ok(_) => r@ == "ok"@,
            Err(message) => r@ == failure_text(message@),
        },
{
    match outcome {
        Ok(_) => "ok".to_owned(),
        Err(message) => failure(message.as_str()),
    }
}

/// What a client is told of a question, by what came of asking the engine.
pub fn send_engine_request_and_wait_response(outcome: Result<String, String>) -> (r: String)
    ensures
        match outcome {
            Ok(answer) => r == answer,
            Err(message) => r@ == failure_text(message@),
        },
{
    match outcome {
        Ok(answer) => answer,
        Err(message) => failure(message.as_str()),
    }
}

/// The bytes that tell a client something: a frame around the text. None when
/// the text is too long for one.
pub fn frame_response(response: &String) -> (r: Option<Vec<u8>>)
    ensures
        match r {
            Some(bytes) => bytes@ == protocol::frame_of(String::encoding(response@)),
            None => String::encoding(response@).len() > u32::MAX || String::encoding(
                response@,
            ).len() + 4 > isize::MAX / 2,
        },
{
    let bytes = response.encode_elem();
    let limit: usize = isize::MAX as usize / 2 - 4;
    if bytes.len() as u64 > u32::MAX as u64 || bytes.len() > limit {
        return None;
    }
    Some(frame(bytes.as_slice()))
}

/// A command to add or remove asks for just that of its value, a question
/// asks the engine, and only a command that is not there is answered at once.
pub proof fn law_command_asks_for_its_operation(command: Option<CommandModel>, value: Seq<char>)
    ensures
        step_for(command) == ClientStepModel::Operate(OpModel::Add(value)) <==> command == Some(
            CommandModel::Add(value),
        ),
        step_for(command) == ClientStepModel::Operate(OpModel::Remove(value)) <==> command == Some(
            CommandModel::Remove(value),
        ),
        step_for(command) is AskElement <==> command is Some && command->0 is RemoveRandom,
        step_for(command) is PrintState <==> command is Some && command->0 is PrintState,
        step_for(command) is PrintInternals <==> command is Some && command->0 is PrintInternals,
        step_for(command) is PrintMatrix <==> command is Some && command->0 is PrintMatrix,
        step_for(command) is Answer <==> command is None,
{
}

/// A client that asked to remove some element is told of the engine's error,
/// as it came, and nothing is removed then; any other name is removed.
pub proof fn law_named_element_is_removed(response: Seq<char>)
    ensures
        step_after_element(response) == ClientStepModel::Answer(response) || step_after_element(
            response,
        ) == ClientStepModel::Operate(OpModel::Remove(response)),
        step_after_element(engines::no_element()) == ClientStepModel::Answer(
            engines::no_element(),
        ),
        step_after_element(failure_text(response)) == ClientStepModel::Answer(
            failure_text(response),
        ),
{
    reveal_strlit("error:");
    reveal_strlit("error: ");
    reveal_strlit("error: empty crdt");
    let none = engines::no_element();
    let failed = failure_text(response);
    assert(none.subrange(0, 6) =~= "error:"@);
    assert(failed.subrange(0, 6) =~= "error:"@);
}

} // verus!
