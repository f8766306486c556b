//! The proxy device: a simulated endpoint that would forward traffic.

use vstd::prelude::*;
use crate::network::interface::{not_implemented_msg, Receive, ReceiveTransmit, Transmit};

verus! {

/// The proxy device. Its simulated send and receive operations are not
/// yet provided, so both report an explicit error rather than silently
/// succeeding.
#[derive(Clone, Copy)]
pub struct ZmqProxyInterface;

impl Receive for ZmqProxyInterface {
    open spec fn receive_ens(&self, r: Result<(), String>) -> bool {
        r matches Err(m) && m@ == not_implemented_msg()
    }

    fn receive(&self) -> (r: Result<(), String>) {
        Err(String::from_str("not implemented"))
    }
}

impl Transmit for ZmqProxyInterface {
    open spec fn transmit_ens(&self, r: Result<(), String>) -> bool {
        r matches Err(m) && m@ == not_implemented_msg()
    }

    fn transmit(&self) -> (r: Result<(), String>) {
        Err(String::from_str("not implemented"))
    }
}

impl ReceiveTransmit for ZmqProxyInterface {

}

} // verus!
