//! The command dispatcher: descriptors for every shell command, a
//! case-insensitive lookup, and dispatch through the `Execute` contract.

pub mod exit;
pub mod help;
pub mod ifc;
pub mod ping;
pub mod sleep;

use vstd::prelude::*;
use crate::command::exit::ExitCommand;
use crate::command::help::HelpCommand;
use crate::command::ifc::IfcCommand;
use crate::command::ping::PingCommand;
use crate::command::sleep::SleepCommand;
use crate::network::interface::{InterfaceModel, InterfaceState};
use crate::text::{lower_seq, seq_views, str_eq, to_lowercase};

verus! {

/// What the embedding shell must do after a command besides printing: sleep
/// for a number of milliseconds, or terminate the process.
#[derive(Clone, Copy, Debug, PartialEq, Eq, Structural)]
pub enum Effect {
    Nothing,
    SleepMs(u64),
    Terminate,
}

/// A command's result: an optional textual report, and an effect the
/// embedding shell performs after releasing the registry.
pub struct CommandOutput {
    pub text: Option<String>,
    pub effect: Effect,
}

/// The contract every command handler satisfies: `pre` says when it may be
/// invoked, `post` pins what it returns and how it changes the registry.
pub trait Execute {
    spec fn pre(&self, st: Seq<InterfaceModel>, argv: Seq<Seq<char>>) -> bool;

    spec fn post(
        &self,
        pre_st: Seq<InterfaceModel>,
        post_st: Seq<InterfaceModel>,
        argv: Seq<Seq<char>>,
        r: Result<CommandOutput, String>,
    ) -> bool;

    fn execute(&self, st: &mut InterfaceState, argv: &Vec<String>) -> (r: Result<
        CommandOutput,
        String,
    >)
        requires
            self.pre(old(st)@, seq_views(argv@)),
        ensures
            self.post(old(st)@, final(st)@, seq_views(argv@), r),
    ;
}

/// The handler bound to a descriptor: one variant per command of this build.
#[derive(Clone, Copy)]
pub enum Handler {
    Ping(PingCommand),
    Ifc(IfcCommand),
    Help(HelpCommand),
    Sleep(SleepCommand),
    Exit(ExitCommand),
}

impl Execute for Handler {
    open spec fn pre(&self, st: Seq<InterfaceModel>, argv: Seq<Seq<char>>) -> bool {
        match *self {
            Handler::Ping(c) => c.pre(st, argv),
            Handler::Ifc(c) => c.pre(st, argv),
            Handler::Help(c) => c.pre(st, argv),
            Handler::Sleep(c) => c.pre(st, argv),
            Handler::Exit(c) => c.pre(st, argv),
        }
    }

    open spec fn post(
        &self,
        pre_st: Seq<InterfaceModel>,
        post_st: Seq<InterfaceModel>,
        argv: Seq<Seq<char>>,
        r: Result<CommandOutput, String>,
    ) -> bool {
        match *self {
            Handler::Ping(c) => c.post(pre_st, post_st, argv, r),
            Handler::Ifc(c) => c.post(pre_st, post_st, argv, r),
            Handler::Help(c) => c.post(pre_st, post_st, argv, r),
            Handler::Sleep(c) => c.post(pre_st, post_st, argv, r),
            Handler::Exit(c) => c.post(pre_st, post_st, argv, r),
        }
    }

    fn execute(&self, st: &mut InterfaceState, argv: &Vec<String>) -> (r: Result<
        CommandOutput,
        String,
    >) {
        match self {
            Handler::Ping(c) => c.execute(st, argv),
            Handler::Ifc(c) => c.execute(st, argv),
            Handler::Help(c) => c.execute(st, argv),
            Handler::Sleep(c) => c.execute(st, argv),
            Handler::Exit(c) => c.execute(st, argv),
        }
    }
}

/// The static metadata describing one shell command. `argc` is the minimum
/// number of arguments, the command name itself excluded.
#[derive(Clone, Copy)]
pub struct Command {
    pub name: &'static str,
    pub description: &'static str,
    pub syntax: &'static str,
    pub argc: usize,
    pub handler: Handler,
}

/// The mathematical record of one descriptor.
pub ghost struct CommandModel {
    pub name: Seq<char>,
    pub description: Seq<char>,
    pub syntax: Seq<char>,
    pub argc: usize,
    pub handler: Handler,
}

impl View for Command {
    type V = CommandModel;

    open spec fn view(&self) -> CommandModel {
        CommandModel {
            name: self.name@,
            description: self.description@,
            syntax: self.syntax@,
            argc: self.argc,
            handler: self.handler,
        }
    }
}

/// A descriptor is well-formed when its `argc` is enough to invoke its
/// handler: any argument vector of at least `argc` entries meets the
/// handler's precondition.
pub open spec fn cmd_wf(c: CommandModel) -> bool {
    forall|st: Seq<InterfaceModel>, argv: Seq<Seq<char>>|
        argv.len() >= c.argc ==> c.handler.pre(st, argv)
}

/// The fixed, ordered dispatch table of this build.
pub open spec fn spec_commands() -> Seq<CommandModel> {
    seq![
        CommandModel {
            name: "ping"@,
            description: "csp: Ping"@,
            syntax: "ping <node> [timeout] [size] [opt]"@,
            argc: 1,
            handler: Handler::Ping(PingCommand),
        },
        CommandModel {
            name: "ifc"@,
            description: "csp: Show interface"@,
            syntax: "ifc"@,
            argc: 0,
            handler: Handler::Ifc(IfcCommand),
        },
        CommandModel {
            name: "help"@,
            description: "shell: Show help"@,
            syntax: "help"@,
            argc: 0,
            handler: Handler::Help(HelpCommand),
        },
        CommandModel {
            name: "sleep"@,
            description: "shell: Sleep X ms"@,
            syntax: "sleep <time>"@,
            argc: 1,
            handler: Handler::Sleep(SleepCommand),
        },
        CommandModel {
            name: "exit"@,
            description: "shell: Exit program"@,
            syntax: "exit"@,
            argc: 0,
            handler: Handler::Exit(ExitCommand),
        },
    ]
}

/// Every descriptor of the table is well-formed.
pub proof fn lemma_commands_wf()
    ensures
        forall|i: int| 0 <= i < spec_commands().len() ==> cmd_wf(#[trigger] spec_commands()[i]),
{
    assert forall|i: int| 0 <= i < spec_commands().len() implies cmd_wf(
        #[trigger] spec_commands()[i],
    ) by {
        assert(cmd_wf(spec_commands()[0]));
        assert(cmd_wf(spec_commands()[1]));
        assert(cmd_wf(spec_commands()[2]));
        assert(cmd_wf(spec_commands()[3]));
        assert(cmd_wf(spec_commands()[4]));
    }
}

/// Produces the dispatch table; stateless, so callers may rebuild it at
/// every lookup.
pub fn commands() -> (r: Vec<Command>)
    ensures
        r@.len() == spec_commands().len(),
        forall|i: int| 0 <= i < r@.len() ==> (#[trigger] r@[i])@ == spec_commands()[i],
{
    let mut v: Vec<Command> = Vec::new();
    v.push(
        Command {
            name: "ping",
            description: "csp: Ping",
            syntax: "ping <node> [timeout] [size] [opt]",
            argc: 1,
            handler: Handler::Ping(PingCommand),
        },
    );
    v.push(
        Command {
            name: "ifc",
            description: "csp: Show interface",
            syntax: "ifc",
            argc: 0,
            handler: Handler::Ifc(IfcCommand),
        },
    );
    v.push(
        Command {
            name: "help",
            description: "shell: Show help",
            syntax: "help",
            argc: 0,
            handler: Handler::Help(HelpCommand),
        },
    );
    v.push(
        Command {
            name: "sleep",
            description: "shell: Sleep X ms",
            syntax: "sleep <time>",
            argc: 1,
            handler: Handler::Sleep(SleepCommand),
        },
    );
    v.push(
        Command {
            name: "exit",
            description: "shell: Exit program",
            syntax: "exit",
            argc: 0,
            handler: Handler::Exit(ExitCommand),
        },
    );
    v
}

/// The first descriptor whose (already lower-case) name equals `n`.
pub open spec fn find_in(cmds: Seq<CommandModel>, n: Seq<char>) -> Option<CommandModel>
    decreases cmds.len(),
{
    if cmds.len() == 0 {
        Option::None
    } else if cmds[0].name == n {
        Option::Some(cmds[0])
    } else {
        find_in(cmds.drop_first(), n)
    }
}

proof fn lemma_find_in_member(cmds: Seq<CommandModel>, n: Seq<char>)
    ensures
        find_in(cmds, n) matches Some(m) ==> cmds.contains(m) && m.name == n,
    decreases cmds.len(),
{
    if cmds.len() > 0 && cmds[0].name != n {
        lemma_find_in_member(cmds.drop_first(), n);
        match find_in(cmds, n) {
            Option::Some(m) => {
                assert(cmds.drop_first().contains(m));
                let i = choose|i: int|
                    0 <= i < cmds.drop_first().len() && cmds.drop_first()[i] == m;
                assert(cmds[i + 1] == m);
            },
            Option::None => {},
        }
    }
}

/// Membership in the table implies well-formedness; the shape callers need.
pub proof fn lemma_resolved_wf(n: Seq<char>)
    ensures
        find_in(spec_commands(), n) matches Some(m) ==> cmd_wf(m) && m.name == n,
{
    lemma_find_in_member(spec_commands(), n);
    lemma_commands_wf();
    match find_in(spec_commands(), n) {
        Option::Some(m) => {
            let i = choose|i: int| 0 <= i < spec_commands().len() && spec_commands()[i] == m;
            assert(cmd_wf(spec_commands()[i]));
        },
        Option::None => {},
    }
}

/// Case-insensitive lookup of a command by name: the name is ASCII
/// lower-cased, then matched against the table.
pub fn resolve(name: &str) -> (r: Option<Command>)
    ensures
        r matches Some(c) ==> find_in(spec_commands(), lower_seq(name@)) == Some(c@),
        r is None ==> find_in(spec_commands(), lower_seq(name@)) is None,
{
    let lower = to_lowercase(name);
    let cmds = commands();
    let ghost n = lower_seq(name@);
    let mut i: usize = 0;
    proof {
        assert(spec_commands().skip(0) =~= spec_commands());
    }
    while i < cmds.len()
        invariant
            i <= cmds@.len(),
            cmds@.len() == spec_commands().len(),
            forall|k: int| 0 <= k < cmds@.len() ==> (#[trigger] cmds@[k])@ == spec_commands()[k],
            lower@ == n,
            n == lower_seq(name@),
            find_in(spec_commands(), n) == find_in(spec_commands().skip(i as int), n),
        decreases cmds@.len() - i,
    {
        proof {
            assert(spec_commands().skip(i as int)[0] == spec_commands()[i as int]);
            assert(spec_commands().skip(i as int).drop_first() =~= spec_commands().skip(i + 1));
        }
        if str_eq(lower.as_str(), cmds[i].name) {
            proof {
                assert(cmds@[i as int]@ == spec_commands()[i as int]);
                assert(find_in(spec_commands().skip(i as int), n) == Some(
                    spec_commands()[i as int],
                ));
            }
            return Some(cmds[i]);
        }
        i = i + 1;
    }
    proof {
        assert(spec_commands().skip(spec_commands().len() as int) =~= Seq::<CommandModel>::empty());
    }
    None
}

/// Lookup is case-insensitive: names that agree up to ASCII case resolve to
/// the same descriptor.
pub proof fn lemma_resolve_case_insensitive(a: Seq<char>, b: Seq<char>)
    requires
        lower_seq(a) == lower_seq(b),
    ensures
        find_in(spec_commands(), lower_seq(a)) == find_in(spec_commands(), lower_seq(b)),
{
}

/// Dispatch: invokes the descriptor's handler. The caller has already
/// checked the argument count against `argc`, which by the descriptor's
/// well-formedness meets the handler's precondition.
pub fn execute(cmd: &Command, st: &mut InterfaceState, argv: &Vec<String>) -> (r: Result<
    CommandOutput,
    String,
>)
    requires
        cmd.handler.pre(old(st)@, seq_views(argv@)),
    ensures
        cmd.handler.post(old(st)@, final(st)@, seq_views(argv@), r),
{
    cmd.handler.execute(st, argv)
}

} // verus!
