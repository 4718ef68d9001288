//! What a line that a user types asks for, and what a benchmark sends.

use vstd::prelude::*;
use vstd::string::StringExecFns;

use crate::crdt::text_codec;
use crate::crdt::text_codec::debug_string;
use crate::numbers;
use crate::numbers::decimal;
use crate::proto::proto_client_command::{Command, CommandModel};
use crate::server::client_requests_handler as commands;
use crate::random::random_between;
use crate::text as texts;
use crate::text::{same_text, split_text, trim};

verus! {

/// What a user is told of a line that is no command.
pub open spec fn unknown_command(line: Seq<char>) -> Seq<char> {
    "Unknown command: "@ + text_codec::debug_text(line)
        + ". Try: add <v>, remove <v>, print-state, print-internals, print-matrix, quit"@
}

/// The command on a line, split at its first space: none when the user is
/// done, or what to tell the user.
pub open spec fn command_on(line: Seq<char>) -> Result<Option<CommandModel>, Seq<char>> {
    let parts = texts::split_limited(line, " "@, 2);
    if parts.len() == 2 {
        if parts[0] == "add"@ {
            Ok(Some(CommandModel::Add(parts[1])))
        } else if parts[0] == "remove"@ {
            Ok(Some(CommandModel::Remove(parts[1])))
        } else {
            Err(unknown_command(line))
        }
    } else if parts[0] == "remove-random"@ {
        Ok(Some(CommandModel::RemoveRandom(true)))
    } else if parts[0] == "print-state"@ {
        Ok(Some(CommandModel::PrintState(true)))
    } else if parts[0] == "print-internals"@ {
        Ok(Some(CommandModel::PrintInternals(true)))
    } else if parts[0] == "print-matrix"@ {
        Ok(Some(CommandModel::PrintMatrix(true)))
    } else if parts[0] == "quit"@ || parts[0] == "exit"@ {
        Ok(None)
    } else if parts[0] == ""@ {
        Err(Seq::empty())
    } else {
        Err(unknown_command(line))
    }
}

/// The value of what was found on a line.
pub open spec fn found_value(r: Result<Option<Command>, String>) -> Result<
    Option<CommandModel>,
    Seq<char>,
> {
    match r {
        Ok(command) => Ok(commands::command_value(command)),
        Err(message) => Err(message@),
    }
}

/// The command on a line, space around it left out: none when the user is
/// done, or what to tell the user, which is nothing when the line is empty.
pub fn parse_line(line: &str) -> (r: Result<Option<Command>, String>)
    ensures
        found_value(r) == command_on(texts::trimmed(line@)),
{
    let line = trim(line);
    let mut parts = split_text(line.as_str(), " ", 2);
    let ghost pieces = texts::texts_of(parts@);
    proof {
        reveal_strlit("");
        lemma_one_or_two(line@);
    }
    if parts.len() == 2 {
        let ghost whole = parts@;
        let value = match parts.pop() {
            Some(value) => value,
            None => String::new(),
        };
        assert(value@ == pieces[1]);
        assert(parts@[0]@ == pieces[0]);
        let name = parts[0].as_str();
        if same_text(name, "add") {
            return Ok(Some(Command::Add(value)));
        }
        if same_text(name, "remove") {
            return Ok(Some(Command::Remove(value)));
        }
        return Err(unknown(line.as_str()));
    }
    let name = parts[0].as_str();
    assert(name@ == pieces[0]);
    if same_text(name, "remove-random") {
        Ok(Some(Command::RemoveRandom(true)))
    } else if same_text(name, "print-state") {
        Ok(Some(Command::PrintState(true)))
    } else if same_text(name, "print-internals") {
        Ok(Some(Command::PrintInternals(true)))
    } else if same_text(name, "print-matrix") {
        Ok(Some(Command::PrintMatrix(true)))
    } else if same_text(name, "quit") || same_text(name, "exit") {
        Ok(None)
    } else if same_text(name, "") {
        Err(String::new())
    } else {
        Err(unknown(line.as_str()))
    }
}

/// A line is split into one piece or two.
proof fn lemma_one_or_two(line: Seq<char>)
    ensures
        1 <= texts::split_limited(line, " "@, 2).len() <= 2,
{
    reveal_with_fuel(texts::split_limited, 3);
}

fn unknown(line: &str) -> (r: String)
    ensures
        r@ == unknown_command(line@),
{
    let mut r = "Unknown command: ".to_owned();
    r.append(debug_string(line).as_str());
    r.append(". Try: add <v>, remove <v>, print-state, print-internals, print-matrix, quit");
    r
}

// ── Benchmarks ──────────────────────────────────────────────────────────

/// What a benchmark sends next, and its name: the first request adds a key,
/// each other one removes an element if `remove` was drawn, else adds a key.
pub fn bench_command(count: u64, remove: bool, key: u64) -> (r: (String, Command))
    ensures
        if count != 0 && remove {
            r.0@ == "remove-random"@ && r.1@ == CommandModel::RemoveRandom(true)
        } else {
            r.0@ == "key-"@ + numbers::decimal_text(key as nat) && r.1@ == CommandModel::Add(r.0@)
        },
{
    if count != 0 && remove {
        ("remove-random".to_owned(), Command::RemoveRandom(true))
    } else {
        let mut name = "key-".to_owned();
        name.append(decimal(key).as_str());
        (name.clone(), Command::Add(name))
    }
}

/// The number of a key. Which one is left to chance.
pub fn draw_key(key_space: u64) -> (r: u64)
    requires
        key_space > 0,
    ensures
        r < key_space,
{
    random_between(0, key_space as i128 - 1) as u64
}

/// May a benchmark send another request?
pub fn bench_goes_on(count: u64, requests: Option<u64>) -> (r: bool)
    ensures
        r == (requests matches Some(max) ==> count < max),
{
    match requests {
        Some(max) => count < max,
        None => true,
    }
}

/// Where the clients of the server with this number connect.
pub fn server_address(gc_replica: bool, number: u64) -> (r: String)
    ensures
        r@ == (if gc_replica {
            "gc-server-"@
        } else {
            "normal-server-"@
        }) + numbers::decimal_text(number as nat) + ":9100"@,
{
    let mut r = (if gc_replica {
        "gc-server-"
    } else {
        "normal-server-"
    }).to_owned();
    r.append(decimal(number).as_str());
    r.append(":9100");
    r
}

/// The one request to a server: it adds a key.
pub fn one_request(gc_replica: bool, key: u64) -> (r: Command)
    ensures
        r@ == CommandModel::Add(
            (if gc_replica {
                "gc-key-"@
            } else {
                "normal-key-"@
            }) + numbers::decimal_text(key as nat),
        ),
{
    let mut r = (if gc_replica {
        "gc-key-"
    } else {
        "normal-key-"
    }).to_owned();
    r.append(decimal(key).as_str());
    Command::Add(r)
}

} // verus!
