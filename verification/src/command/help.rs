//! The `help` command: one line per registered command, naming and
//! describing it.

use vstd::prelude::*;
use crate::command::{commands, CommandModel, CommandOutput, Effect, Execute, spec_commands};
use crate::network::interface::{InterfaceModel, InterfaceState};

verus! {

/// The help line of one descriptor: its name, then its description.
pub open spec fn help_line(c: CommandModel) -> Seq<char> {
    "  "@ + c.name + "\t\t"@ + c.description
}

/// The help lines of `cmds`, joined by single newlines.
pub open spec fn help_join(cmds: Seq<CommandModel>) -> Seq<char>
    decreases cmds.len(),
{
    if cmds.len() == 0 {
        Seq::empty()
    } else if cmds.len() == 1 {
        help_line(cmds[0])
    } else {
        help_join(cmds.drop_last()) + "\n"@ + help_line(cmds.last())
    }
}

/// The full help text of this build.
pub open spec fn help_text() -> Seq<char> {
    help_join(spec_commands())
}

/// Handler of `help`: reports the fixed help text and changes nothing.
#[derive(Clone, Copy)]
pub struct HelpCommand;

impl Execute for HelpCommand {
    open spec fn pre(&self, st: Seq<InterfaceModel>, argv: Seq<Seq<char>>) -> bool {
        true
    }

    open spec fn post(
        &self,
        pre_st: Seq<InterfaceModel>,
        post_st: Seq<InterfaceModel>,
        argv: Seq<Seq<char>>,
        r: Result<CommandOutput, String>,
    ) -> bool {
        &&& post_st == pre_st
        &&& r matches Ok(out) && out.effect == Effect::Nothing && (out.text matches Some(t)
            && t@ == help_text())
    }

    fn execute(&self, st: &mut InterfaceState, argv: &Vec<String>) -> (r: Result<
        CommandOutput,
        String,
    >) {
        let cmds = commands();
        let mut s = String::new();
        let mut i: usize = 0;
        while i < cmds.len()
            invariant
                i <= cmds@.len(),
                cmds@.len() == spec_commands().len(),
                forall|k: int| 0 <= k < cmds@.len() ==> (#[trigger] cmds@[k])@
                    == spec_commands()[k],
                s@ == help_join(spec_commands().take(i as int)),
            decreases cmds@.len() - i,
        {
            if i > 0 {
                s.append("\n");
            }
            s.append("  ");
            s.append(cmds[i].name);
            s.append("\t\t");
            s.append(cmds[i].description);
            proof {
                assert(spec_commands().take(i + 1).drop_last() =~= spec_commands().take(i as int));
                assert(spec_commands().take(i + 1).last() == spec_commands()[i as int]);
                assert(s@ =~= help_join(spec_commands().take(i + 1)));
            }
            i = i + 1;
        }
        proof {
            assert(spec_commands().take(spec_commands().len() as int) =~= spec_commands());
        }
        Ok(CommandOutput { text: Some(s), effect: Effect::Nothing })
    }
}

/// The help text holds exactly one line per registered command: the lines,
/// joined by single newlines, form the text, and each line carries its
/// command's name (after the two-space indent) and ends in its description.
pub proof fn lemma_help_one_line_per_command()
    ensures
        help_text() == help_join(spec_commands()),
        forall|i: int| 0 <= i < spec_commands().len() ==> {
            let line = #[trigger] help_line(spec_commands()[i]);
            &&& line.subrange(2, 2 + spec_commands()[i].name.len() as int)
                == spec_commands()[i].name
            &&& line.subrange(
                line.len() - spec_commands()[i].description.len(),
                line.len() as int,
            ) == spec_commands()[i].description
            &&& forall|j: int| 0 <= j < line.len() ==> line[j] != '\n'
        },
{
    reveal_strlit("  ");
    reveal_strlit("\t\t");
    reveal_strlit("ping");
    reveal_strlit("ifc");
    reveal_strlit("help");
    reveal_strlit("sleep");
    reveal_strlit("exit");
    reveal_strlit("csp: Ping");
    reveal_strlit("csp: Show interface");
    reveal_strlit("shell: Show help");
    reveal_strlit("shell: Sleep X ms");
    reveal_strlit("shell: Exit program");
    assert forall|i: int| 0 <= i < spec_commands().len() implies {
        let line = #[trigger] help_line(spec_commands()[i]);
        &&& line.subrange(2, 2 + spec_commands()[i].name.len() as int) == spec_commands()[i].name
        &&& line.subrange(line.len() - spec_commands()[i].description.len(), line.len() as int)
            == spec_commands()[i].description
        &&& forall|j: int| 0 <= j < line.len() ==> line[j] != '\n'
    } by {
        let c = spec_commands()[i];
        let line = help_line(c);
        assert(line.subrange(2, 2 + c.name.len() as int) =~= c.name);
        assert(line.subrange(line.len() - c.description.len(), line.len() as int)
            =~= c.description);
        assert forall|j: int| 0 <= j < line.len() implies line[j] != '\n' by {
            if j < 2 {
            } else if j < 2 + c.name.len() {
                assert(line[j] == c.name[j - 2]);
            } else if j < 4 + c.name.len() {
                assert(line[j] == "\t\t"@[j - 2 - c.name.len()]);
            } else {
                assert(line[j] == c.description[j - 4 - c.name.len()]);
            }
        }
    }
}

} // verus!
