//! The compute half of the shell loop: tokenize one input line, resolve the
//! command case-insensitively, check its argument count, dispatch, and
//! classify what happened. Reading lines, printing, sleeping and exiting are
//! the embedding program's job.

use vstd::prelude::*;
use crate::command::{
    execute, find_in, lemma_resolved_wf, resolve, spec_commands, CommandModel, CommandOutput,
    Effect, Execute,
};
use crate::network::interface::{InterfaceModel, InterfaceState};
use crate::text::{lower_seq, seq_views, to_lowercase, tokenize, tokens_of};

verus! {

/// What one input line led to. The embedding shell prints the notice, the
/// usage message, the command's text or `Error: ` with its message, and
/// performs the effect of a completed command.
pub enum LineOutcome {
    Empty,
    Unknown { notice: String },
    Usage { usage: String, notice: String },
    Done { text: Option<String>, effect: Effect },
    Failed { message: String },
}

/// The notice for an unresolved name. It echoes the name ASCII-folded — the
/// same folding the lookup uses — so characters outside ASCII come back
/// unchanged.
pub open spec fn unknown_notice(lname: Seq<char>) -> Seq<char> {
    "Unknown command '"@ + lname + "'"@
}

pub open spec fn usage_line(c: CommandModel) -> Seq<char> {
    "usage: "@ + c.syntax
}

pub open spec fn could_not_line(c: CommandModel) -> Seq<char> {
    "Could not execute command '"@ + c.name + "'"@
}

/// How an outcome reports a handler's result.
pub open spec fn reports(r: LineOutcome, res: Result<CommandOutput, String>) -> bool {
    match res {
        Ok(out) => match r {
            LineOutcome::Done { text, effect } => text == out.text && effect == out.effect,
            _ => false,
        },
        Err(m) => match r {
            LineOutcome::Failed { message } => message == m,
            _ => false,
        },
    }
}

/// The outcome is the unknown-command notice for `lname`.
pub open spec fn is_unknown_with(r: LineOutcome, lname: Seq<char>) -> bool {
    match r {
        LineOutcome::Unknown { notice } => notice@ == unknown_notice(lname),
        _ => false,
    }
}

/// The outcome is the usage report of descriptor `c`.
pub open spec fn is_usage_for(r: LineOutcome, c: CommandModel) -> bool {
    match r {
        LineOutcome::Usage { usage, notice } => usage@ == usage_line(c) && notice@
            == could_not_line(c),
        _ => false,
    }
}

/// The contract of one shell step: empty input does nothing; an unresolved
/// name yields a single unknown-command notice and changes nothing; too few
/// arguments yield the usage message without invoking the handler; otherwise
/// the handler runs on the stripped arguments and its own contract pins the
/// rest.
pub open spec fn line_outcome_ok(
    pre_st: Seq<InterfaceModel>,
    post_st: Seq<InterfaceModel>,
    line: Seq<char>,
    r: LineOutcome,
) -> bool {
    let toks = tokens_of(line);
    if toks.len() == 0 {
        r is Empty && post_st == pre_st
    } else {
        let lname = lower_seq(toks[0]);
        match find_in(spec_commands(), lname) {
            Option::None => is_unknown_with(r, lname) && post_st == pre_st,
            Option::Some(c) => {
                if toks.len() <= c.argc {
                    is_usage_for(r, c) && post_st == pre_st
                } else {
                    exists|res: Result<CommandOutput, String>|
                        #[trigger] c.handler.post(pre_st, post_st, toks.skip(1), res) && reports(
                            r,
                            res,
                        )
                }
            },
        }
    }
}

/// One step of the shell over one input line.
pub fn process_line(st: &mut InterfaceState, line: &str) -> (r: LineOutcome)
    ensures
        line_outcome_ok(old(st)@, final(st)@, line@, r),
{
    let mut toks = tokenize(line);
    let ghost all_toks = tokens_of(line@);
    if toks.len() == 0 {
        proof {
            assert(seq_views(toks@).len() == 0);
        }
        return LineOutcome::Empty;
    }
    proof {
        assert(seq_views(toks@).len() == toks@.len());
        assert(seq_views(toks@)[0] == toks@[0]@);
    }
    let ghost lname = lower_seq(all_toks[0]);
    let lower = to_lowercase(toks[0].as_str());
    match resolve(toks[0].as_str()) {
        Option::None => {
            let mut notice = String::from_str("Unknown command '");
            notice.append(lower.as_str());
            notice.append("'");
            proof {
                assert(notice@ =~= unknown_notice(lname));
            }
            LineOutcome::Unknown { notice }
        },
        Option::Some(cmd) => {
            proof {
                assert(find_in(spec_commands(), lname) == Some(cmd@));
            }
            if toks.len() - 1 < cmd.argc {
                let mut usage = String::from_str("usage: ");
                usage.append(cmd.syntax);
                let mut notice = String::from_str("Could not execute command '");
                notice.append(cmd.name);
                notice.append("'");
                proof {
                    assert(usage@ =~= usage_line(cmd@));
                    assert(notice@ =~= could_not_line(cmd@));
                }
                LineOutcome::Usage { usage, notice }
            } else {
                proof {
                    lemma_resolved_wf(lname);
                }
                toks.remove(0);
                proof {
                    assert(seq_views(toks@) =~= all_toks.skip(1));
                    assert(seq_views(toks@).len() >= cmd@.argc);
                    assert(cmd.handler.pre(st@, seq_views(toks@)));
                }
                match execute(&cmd, st, &toks) {
                    Ok(out) => LineOutcome::Done { text: out.text, effect: out.effect },
                    Err(m) => LineOutcome::Failed { message: m },
                }
            }
        },
    }
}

/// An unknown command is harmless: whenever a step's first token resolves to
/// no descriptor, the registry is left exactly as it was and the only output
/// is the single unknown-command notice.
pub proof fn lemma_unknown_command_is_harmless(
    pre_st: Seq<InterfaceModel>,
    post_st: Seq<InterfaceModel>,
    line: Seq<char>,
    r: LineOutcome,
)
    requires
        line_outcome_ok(pre_st, post_st, line, r),
        tokens_of(line).len() > 0,
        find_in(spec_commands(), lower_seq(tokens_of(line)[0])) is None,
    ensures
        post_st == pre_st,
        match r {
            LineOutcome::Unknown { notice } => notice@ == unknown_notice(
                lower_seq(tokens_of(line)[0]),
            ),
            _ => false,
        },
{
}

} // verus!
