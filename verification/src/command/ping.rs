//! The `ping` command: resolves the target interface by name and invokes
//! its transmit operation.

use vstd::prelude::*;
use crate::command::{CommandOutput, Effect, Execute};
use crate::network::interface::{InterfaceModel, InterfaceState, Transmit};
use crate::text::{seq_views, str_eq};

verus! {

pub open spec fn no_such_interface_msg() -> Seq<char> {
    "no such interface"@
}

/// The first registered interface whose name equals `name`.
pub open spec fn find_ifc(ms: Seq<InterfaceModel>, name: Seq<char>) -> Option<InterfaceModel>
    decreases ms.len(),
{
    if ms.len() == 0 {
        Option::None
    } else if ms[0].name == name {
        Option::Some(ms[0])
    } else {
        find_ifc(ms.drop_first(), name)
    }
}

/// Handler of `ping`: looks the target up by its node name and, when found,
/// transmits through its device; the device's own contract pins the outcome.
/// Extra arguments (timeout, size, options) are accepted and ignored.
#[derive(Clone, Copy)]
pub struct PingCommand;

impl Execute for PingCommand {
    open spec fn pre(&self, st: Seq<InterfaceModel>, argv: Seq<Seq<char>>) -> bool {
        argv.len() >= 1
    }

    open spec fn post(
        &self,
        pre_st: Seq<InterfaceModel>,
        post_st: Seq<InterfaceModel>,
        argv: Seq<Seq<char>>,
        r: Result<CommandOutput, String>,
    ) -> bool {
        &&& post_st == pre_st
        &&& match find_ifc(pre_st, argv[0]) {
            Option::None => r matches Err(m) && m@ == no_such_interface_msg(),
            Option::Some(ifc) => {
                &&& (r matches Ok(out) ==> ifc.handler.transmit_ens(Ok(())) && out.text is None
                    && out.effect == Effect::Nothing)
                &&& (r matches Err(m) ==> ifc.handler.transmit_ens(Err(m)))
            },
        }
    }

    fn execute(&self, st: &mut InterfaceState, argv: &Vec<String>) -> (r: Result<
        CommandOutput,
        String,
    >) {
        proof {
            assert(seq_views(argv@).len() == argv@.len());
            assert(seq_views(argv@)[0] == argv@[0]@);
        }
        let ghost pre_st = st@;
        let ghost name = argv@[0]@;
        let n = st.interfaces.len();
        let mut i: usize = 0;
        proof {
            assert(pre_st.skip(0) =~= pre_st);
        }
        while i < n
            invariant
                i <= n,
                n == pre_st.len(),
                st@ == pre_st,
                argv@.len() >= 1,
                name == argv@[0]@,
                name == seq_views(argv@)[0],
                find_ifc(pre_st, name) == find_ifc(pre_st.skip(i as int), name),
            decreases n - i,
        {
            proof {
                assert(pre_st.skip(i as int)[0] == pre_st[i as int]);
                assert(pre_st.skip(i as int).drop_first() =~= pre_st.skip(i + 1));
            }
            if str_eq(argv[0].as_str(), st.interfaces[i].name) {
                let dev = st.interfaces[i].handler;
                proof {
                    assert(pre_st[i as int] == st.interfaces@[i as int]@);
                    assert(pre_st[i as int].name == name);
                    assert(find_ifc(pre_st, name) == Some(pre_st[i as int]));
                    assert(pre_st[i as int].handler == dev);
                }
                match dev.transmit() {
                    Ok(u) => {
                        return Ok(CommandOutput { text: None, effect: Effect::Nothing });
                    },
                    Err(m) => {
                        return Err(m);
                    },
                }
            }
            i = i + 1;
        }
        proof {
            assert(pre_st.skip(n as int) =~= Seq::<InterfaceModel>::empty());
        }
        Err(String::from_str("no such interface"))
    }
}

} // verus!
