//! The `sleep` command: parses a millisecond count and asks the embedding
//! shell to block for it.

use vstd::prelude::*;
use crate::command::{CommandOutput, Effect, Execute};
use crate::network::interface::{InterfaceModel, InterfaceState};
use crate::text::{numeral_error_msg, numeral_error_string, parse_u64, parse_u64_spec};

verus! {

/// Handler of `sleep`. The blocking itself happens in the embedding shell,
/// which must not hold the registry while it waits; the handler only
/// parses the argument and reports the duration, or the parse error's text.
#[derive(Clone, Copy)]
pub struct SleepCommand;

impl Execute for SleepCommand {
    open spec fn pre(&self, st: Seq<InterfaceModel>, argv: Seq<Seq<char>>) -> bool {
        argv.len() >= 1
    }

    open spec fn post(
        &self,
        pre_st: Seq<InterfaceModel>,
        post_st: Seq<InterfaceModel>,
        argv: Seq<Seq<char>>,
        r: Result<CommandOutput, String>,
    ) -> bool {
        &&& post_st == pre_st
        &&& match parse_u64_spec(argv[0]) {
            Ok(v) => r matches Ok(out) && out.text is None && out.effect == Effect::SleepMs(v),
            Err(e) => r matches Err(m) && m@ == numeral_error_msg(e),
        }
    }

    fn execute(&self, st: &mut InterfaceState, argv: &Vec<String>) -> (r: Result<
        CommandOutput,
        String,
    >) {
        match parse_u64(argv[0].as_str()) {
            Ok(ms) => Ok(CommandOutput { text: None, effect: Effect::SleepMs(ms) }),
            Err(e) => Err(numeral_error_string(e)),
        }
    }
}

} // verus!
