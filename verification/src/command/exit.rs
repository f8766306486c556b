//! The `exit` command: asks the embedding shell to terminate the process.

use vstd::prelude::*;
use crate::command::{CommandOutput, Effect, Execute};
use crate::network::interface::{InterfaceModel, InterfaceState};

verus! {

/// Handler of `exit`. Process termination itself is the embedding shell's
/// job; the handler only requests it, touching nothing.
#[derive(Clone, Copy)]
pub struct ExitCommand;

impl Execute for ExitCommand {
    open spec fn pre(&self, st: Seq<InterfaceModel>, argv: Seq<Seq<char>>) -> bool {
        true
    }

    open spec fn post(
        &self,
        pre_st: Seq<InterfaceModel>,
        post_st: Seq<InterfaceModel>,
        argv: Seq<Seq<char>>,
        r: Result<CommandOutput, String>,
    ) -> bool {
        &&& post_st == pre_st
        &&& r matches Ok(out) && out.text is None && out.effect == Effect::Terminate
    }

    fn execute(&self, st: &mut InterfaceState, argv: &Vec<String>) -> (r: Result<
        CommandOutput,
        String,
    >) {
        Ok(CommandOutput { text: None, effect: Effect::Terminate })
    }
}

} // verus!
