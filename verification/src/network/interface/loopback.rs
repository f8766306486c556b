//! The loopback device: a simulated local endpoint.

use vstd::prelude::*;
use crate::network::interface::{not_implemented_msg, Receive, ReceiveTransmit, Transmit};

verus! {

/// The loopback device. Its simulated send and receive operations are not
/// yet provided, so both report an explicit error rather than silently
/// succeeding.
#[derive(Clone, Copy)]
pub struct LoopInterface;

impl Receive for LoopInterface {
    open spec fn receive_ens(&self, r: Result<(), String>) -> bool {
        r matches Err(m) && m@ == not_implemented_msg()
    }

    fn receive(&self) -> (r: Result<(), String>) {
        Err(String::from_str("not implemented"))
    }
}

impl Transmit for LoopInterface {
    open spec fn transmit_ens(&self, r: Result<(), String>) -> bool {
        r matches Err(m) && m@ == not_implemented_msg()
    }

    fn transmit(&self) -> (r: Result<(), String>) {
        Err(String::from_str("not implemented"))
    }
}

impl ReceiveTransmit for LoopInterface {

}

} // verus!
