//! The decision logic of a process-spawning command: how its arguments are
//! interpreted and how the host's spawn outcome becomes a command result.
//! The spawning itself is I/O owned by the embedding host.

use vstd::prelude::*;
use vstd::string::*;

use crate::command::{CommandResult, CommandResultView};
use crate::numfmt::{dec_digits, format_u64};

verus! {

/// Whether a spawn invocation asks for the child's output to be printed, and
/// at which position its program and arguments start: a leading `--silent`
/// flag suppresses printing and shifts the program by one.
pub open spec fn spec_spawn_options(args: Seq<Seq<char>>) -> (bool, nat) {
    if args.len() > 0 && args[0] == "--silent"@ {
        (false, 1 as nat)
    } else {
        (true, 0 as nat)
    }
}

/// Decides the print behavior and the start of the program arguments.
pub fn spawn_options(args: &Vec<String>) -> (r: (bool, usize))
    ensures
        (r.0, r.1 as nat) == spec_spawn_options(args.deep_view()),
{
    if args.len() > 0 {
        proof {
            assert(args.deep_view()[0] == args@[0]@);
        }
        let silent = String::from_str("--silent");
        if args[0] == silent {
            return (false, 1);
        }
    }
    (true, 0)
}

/// Turns the host's spawn outcome into the command's result: a started child
/// continues with its process identifier rendered in decimal (so a
/// higher-level command can target the child), and a failure message is
/// forwarded unchanged.
pub fn spawn_outcome(outcome: Result<u32, String>) -> (r: CommandResult)
    ensures
        match outcome {
            Ok(pid) => r@ == CommandResultView::Continue(Some(dec_digits(pid as nat))),
            Err(e) => r@ == CommandResultView::Error(e@),
        },
{
    match outcome {
        Ok(pid) => CommandResult::Continue(Some(format_u64(pid as u64))),
        Err(e) => CommandResult::Error(e),
    }
}

} // verus!
