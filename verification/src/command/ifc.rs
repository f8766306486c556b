//! The `ifc` command: a read-only dump of every interface's counters in a
//! fixed textual layout, the interface name styled for the terminal.

use colored::Colorize;
use vstd::prelude::*;
use crate::command::{CommandOutput, Effect, Execute};
use crate::network::interface::{InterfaceModel, InterfaceState};
use crate::text::{dec_rep, fmt_u32, fmt_u32_pad5, zero_pad};

verus! {

/// How terminal styling may rewrite an interface name: either unchanged, or
/// wrapped in the bold escape prefix and the reset suffix.
pub open spec fn styled_wraps(name: Seq<char>, sty: Seq<char>) -> bool {
    sty == name || sty == "\u{1b}[1m"@ + name + "\u{1b}[0m"@
}

/// Relies on colored::Colorize::bold and ColoredString's Display: when
/// colouring is disabled the text is written unchanged, otherwise it is
/// wrapped in the bold style sequence and the reset sequence (the input
/// holding no escape character, nothing inside it is rewritten).
#[verifier::external_body]
fn bold_str(s: &str) -> (r: String)
    requires
        forall|i: int| 0 <= i < s@.len() ==> s@[i] != '\u{1b}',
    ensures
        styled_wraps(s@, r@),
{
    format!("{}", s.bold())
}

/// Whether a string is free of the escape character, so styling only wraps it.
fn esc_free(s: &str) -> (r: bool)
    ensures
        r == forall|i: int| 0 <= i < s@.len() ==> s@[i] != '\u{1b}',
{
    let n = s.unicode_len();
    let mut i: usize = 0;
    while i < n
        invariant
            i <= n,
            n == s@.len(),
            forall|j: int| 0 <= j < i ==> s@[j] != '\u{1b}',
        decreases n - i,
    {
        if s.get_char(i) == '\u{1b}' {
            return false;
        }
        i = i + 1;
    }
    true
}

/// One interface's block of the report: the styled name, then the packet and
/// error counters zero-padded to five digits, then byte counters and the
/// address and netmask.
pub open spec fn ifc_block(m: InterfaceModel, sty: Seq<char>) -> Seq<char> {
    sty + "\n\ttx: "@ + zero_pad(dec_rep(m.tx as int), 5) + " rx: "@ + zero_pad(
        dec_rep(m.rx as int),
        5,
    ) + " txe: "@ + zero_pad(dec_rep(m.tx_error as int), 5) + " rxe: "@ + zero_pad(
        dec_rep(m.rx_error as int),
        5,
    ) + "\n\ttxb: "@ + dec_rep(m.tx_bytes as int) + " rxb: "@ + dec_rep(m.rx_bytes as int)
        + " addr: "@ + dec_rep(m.addr as int) + "/"@ + dec_rep(m.netmask as int)
}

/// The blocks, each followed by a blank line.
pub open spec fn ifc_blocks(ms: Seq<InterfaceModel>, sty: Seq<Seq<char>>) -> Seq<char>
    decreases ms.len(),
{
    if ms.len() == 0 {
        Seq::empty()
    } else {
        ifc_blocks(ms.drop_last(), sty.drop_last()) + ifc_block(ms.last(), sty.last()) + "\n\n"@
    }
}

/// The full report: one block per interface separated by blank lines, a
/// single trailing newline, and empty when no interface is registered.
pub open spec fn report_of(ms: Seq<InterfaceModel>, sty: Seq<Seq<char>>) -> Seq<char> {
    if ms.len() == 0 {
        Seq::empty()
    } else {
        ifc_blocks(ms, sty).take(ifc_blocks(ms, sty).len() - 1)
    }
}

/// Renders the report for the given registry and styled names; the result is
/// a function of the two arguments alone.
#[verifier::rlimit(100)]
pub fn render_report(st: &InterfaceState, styled: &Vec<String>) -> (r: String)
    requires
        styled@.len() == st@.len(),
    ensures
        r@ == report_of(st@, styled@.map_values(|t: String| t@)),
{
    let ghost sty = styled@.map_values(|t: String| t@);
    let n = st.interfaces.len();
    let mut s = String::new();
    let mut i: usize = 0;
    proof {
        assert(st@.take(0) =~= Seq::<InterfaceModel>::empty());
        assert(sty.take(0) =~= Seq::<Seq<char>>::empty());
    }
    while i < n
        invariant
            i <= n,
            n == st@.len(),
            sty == styled@.map_values(|t: String| t@),
            sty.len() == n,
            s@ == ifc_blocks(st@.take(i as int), sty.take(i as int)),
        decreases n - i,
    {
        s.append(styled[i].as_str());
        s.append("\n\ttx: ");
        let t = fmt_u32_pad5(st.interfaces[i].tx);
        s.append(t.as_str());
        s.append(" rx: ");
        let t = fmt_u32_pad5(st.interfaces[i].rx);
        s.append(t.as_str());
        s.append(" txe: ");
        let t = fmt_u32_pad5(st.interfaces[i].tx_error);
        s.append(t.as_str());
        s.append(" rxe: ");
        let t = fmt_u32_pad5(st.interfaces[i].rx_error);
        s.append(t.as_str());
        s.append("\n\ttxb: ");
        let t = fmt_u32(st.interfaces[i].tx_bytes);
        s.append(t.as_str());
        s.append(" rxb: ");
        let t = fmt_u32(st.interfaces[i].rx_bytes);
        s.append(t.as_str());
        s.append(" addr: ");
        let t = fmt_u32(st.interfaces[i].addr);
        s.append(t.as_str());
        s.append("/");
        let t = fmt_u32(st.interfaces[i].netmask);
        s.append(t.as_str());
        s.append("\n\n");
        proof {
            assert(st@.take(i + 1).drop_last() =~= st@.take(i as int));
            assert(sty.take(i + 1).drop_last() =~= sty.take(i as int));
            assert(st@.take(i + 1).last() == st@[i as int]);
            assert(sty.take(i + 1).last() == sty[i as int]);
            assert(s@ =~= ifc_blocks(st@.take(i + 1), sty.take(i + 1)));
        }
        i = i + 1;
    }
    proof {
        assert(st@.take(n as int) =~= st@);
        assert(sty.take(n as int) =~= sty);
    }
    if n == 0 {
        return s;
    }
    let len = s.as_str().unicode_len();
    proof {
        assert(ifc_blocks(st@, sty).len() > 0);
    }
    let trimmed = s.as_str().substring_char(0, len - 1);
    proof {
        assert(trimmed@ =~= report_of(st@, sty));
    }
    String::from_str(trimmed)
}

/// Handler of `ifc`: reads every interface and reports its counters; the
/// registry itself is left exactly as it was.
#[derive(Clone, Copy)]
pub struct IfcCommand;

impl Execute for IfcCommand {
    open spec fn pre(&self, st: Seq<InterfaceModel>, argv: Seq<Seq<char>>) -> bool {
        true
    }

    open spec fn post(
        &self,
        pre_st: Seq<InterfaceModel>,
        post_st: Seq<InterfaceModel>,
        argv: Seq<Seq<char>>,
        r: Result<CommandOutput, String>,
    ) -> bool {
        &&& post_st == pre_st
        &&& r matches Ok(out) && out.effect == Effect::Nothing && (out.text matches Some(t)
            && exists|sty: Seq<Seq<char>>|
            {
                &&& sty.len() == pre_st.len()
                &&& (forall|i: int|
                    0 <= i < sty.len() ==> styled_wraps(pre_st[i].name, #[trigger] sty[i]))
                &&& t@ == report_of(pre_st, sty)
            })
    }

    fn execute(&self, st: &mut InterfaceState, argv: &Vec<String>) -> (r: Result<
        CommandOutput,
        String,
    >) {
        let ghost pre_st = st@;
        let n = st.interfaces.len();
        let mut styled: Vec<String> = Vec::new();
        let mut i: usize = 0;
        while i < n
            invariant
                i <= n,
                n == pre_st.len(),
                st@ == pre_st,
                styled@.len() == i,
                forall|k: int|
                    0 <= k < i ==> styled_wraps(pre_st[k].name, (#[trigger] styled@[k])@),
            decreases n - i,
        {
            let name = st.interfaces[i].name;
            proof {
                assert(pre_st[i as int].name == name@);
            }
            if esc_free(name) {
                styled.push(bold_str(name));
            } else {
                styled.push(String::from_str(name));
            }
            i = i + 1;
        }
        let text = render_report(st, &styled);
        proof {
            let sty = styled@.map_values(|t: String| t@);
            assert(sty.len() == pre_st.len());
            assert(forall|k: int|
                0 <= k < sty.len() ==> styled_wraps(pre_st[k].name, #[trigger] sty[k]));
        }
        Ok(CommandOutput { text: Some(text), effect: Effect::Nothing })
    }
}

/// `ifc` is read-only: any outcome meeting its contract leaves the registry
/// exactly as it was, so any sequence of `ifc` invocations reads the same
/// counters and, under the same styling choice, the same report.
pub proof fn lemma_ifc_read_only(
    pre_st: Seq<InterfaceModel>,
    post_st: Seq<InterfaceModel>,
    argv: Seq<Seq<char>>,
    r: Result<CommandOutput, String>,
)
    requires
        IfcCommand.post(pre_st, post_st, argv, r),
    ensures
        post_st == pre_st,
{
}

} // verus!
