//! The interface registry: named, addressed devices with traffic counters,
//! each backed by a receive/transmit-capable implementation.

pub mod loopback;
pub mod zmqproxy;

use vstd::prelude::*;
use crate::network::interface::loopback::LoopInterface;
use crate::network::interface::zmqproxy::ZmqProxyInterface;

verus! {

pub open spec fn not_implemented_msg() -> Seq<char> {
    "not implemented"@
}

/// The capability to receive a simulated packet. The result is pinned by the
/// implementor's own `receive_ens`.
pub trait Receive {
    spec fn receive_ens(&self, r: Result<(), String>) -> bool;

    fn receive(&self) -> (r: Result<(), String>)
        ensures
            self.receive_ens(r),
    ;
}

/// The capability to transmit a simulated packet.
pub trait Transmit {
    spec fn transmit_ens(&self, r: Result<(), String>) -> bool;

    fn transmit(&self) -> (r: Result<(), String>)
        ensures
            self.transmit_ens(r),
    ;
}

/// A device the registry accepts: one that both receives and transmits.
pub trait ReceiveTransmit: Receive + Transmit {

}

/// The device kinds this build knows; the registry dispatches receive and
/// transmit through this variant without knowing the concrete type.
#[derive(Clone, Copy)]
pub enum Device {
    Loopback(LoopInterface),
    ZmqProxy(ZmqProxyInterface),
}

impl Receive for Device {
    open spec fn receive_ens(&self, r: Result<(), String>) -> bool {
        match *self {
            Device::Loopback(d) => d.receive_ens(r),
            Device::ZmqProxy(d) => d.receive_ens(r),
        }
    }

    fn receive(&self) -> (r: Result<(), String>) {
        match self {
            Device::Loopback(d) => d.receive(),
            Device::ZmqProxy(d) => d.receive(),
        }
    }
}

impl Transmit for Device {
    open spec fn transmit_ens(&self, r: Result<(), String>) -> bool {
        match *self {
            Device::Loopback(d) => d.transmit_ens(r),
            Device::ZmqProxy(d) => d.transmit_ens(r),
        }
    }

    fn transmit(&self) -> (r: Result<(), String>) {
        match self {
            Device::Loopback(d) => d.transmit(),
            Device::ZmqProxy(d) => d.transmit(),
        }
    }
}

impl ReceiveTransmit for Device {

}

/// A named, addressed device together with its traffic counters.
#[derive(Clone, Copy)]
pub struct Interface {
    pub name: &'static str,
    pub addr: u32,
    pub netmask: u32,
    pub tx: u32,
    pub rx: u32,
    pub tx_error: u32,
    pub rx_error: u32,
    pub tx_bytes: u32,
    pub rx_bytes: u32,
    pub handler: Device,
}

/// The mathematical record of one interface.
pub ghost struct InterfaceModel {
    pub name: Seq<char>,
    pub addr: u32,
    pub netmask: u32,
    pub tx: u32,
    pub rx: u32,
    pub tx_error: u32,
    pub rx_error: u32,
    pub tx_bytes: u32,
    pub rx_bytes: u32,
    pub handler: Device,
}

impl View for Interface {
    type V = InterfaceModel;

    open spec fn view(&self) -> InterfaceModel {
        InterfaceModel {
            name: self.name@,
            addr: self.addr,
            netmask: self.netmask,
            tx: self.tx,
            rx: self.rx,
            tx_error: self.tx_error,
            rx_error: self.rx_error,
            tx_bytes: self.tx_bytes,
            rx_bytes: self.rx_bytes,
            handler: self.handler,
        }
    }
}

impl Interface {
    /// A fresh interface: every counter starts at zero.
    pub fn new(name: &'static str, addr: u32, netmask: u32, handler: Device) -> (r: Interface)
        ensures
            r@ == (InterfaceModel {
                name: name@,
                addr,
                netmask,
                tx: 0,
                rx: 0,
                tx_error: 0,
                rx_error: 0,
                tx_bytes: 0,
                rx_bytes: 0,
                handler,
            }),
    {
        Interface {
            name,
            addr,
            netmask,
            tx: 0,
            rx: 0,
            tx_error: 0,
            rx_error: 0,
            tx_bytes: 0,
            rx_bytes: 0,
            handler,
        }
    }
}

/// The registry: the ordered collection of every interface of the process.
/// The embedding program owns one instance for its whole lifetime and
/// serializes access to it; every command works on it through a handle.
pub struct InterfaceState {
    pub interfaces: Vec<Interface>,
}

impl View for InterfaceState {
    type V = Seq<InterfaceModel>;

    open spec fn view(&self) -> Seq<InterfaceModel> {
        self.interfaces@.map_values(|x: Interface| x@)
    }
}

/// No two registered interfaces share a name.
pub open spec fn names_unique(ms: Seq<InterfaceModel>) -> bool {
    forall|i: int, j: int| 0 <= i < j < ms.len() ==> ms[i].name != ms[j].name
}

/// The default device set: the loopback device first, the proxy second.
pub open spec fn default_ifcs() -> Seq<InterfaceModel> {
    seq![
        InterfaceModel {
            name: "LOOP"@,
            addr: 30,
            netmask: 0,
            tx: 0,
            rx: 0,
            tx_error: 0,
            rx_error: 0,
            tx_bytes: 0,
            rx_bytes: 0,
            handler: Device::Loopback(LoopInterface),
        },
        InterfaceModel {
            name: "ZMQPROXY"@,
            addr: 10,
            netmask: 0,
            tx: 0,
            rx: 0,
            tx_error: 0,
            rx_error: 0,
            tx_bytes: 0,
            rx_bytes: 0,
            handler: Device::ZmqProxy(ZmqProxyInterface),
        },
    ]
}

/// Builds the registry's initial contents. The result is one fixed value, so
/// however many times construction runs, every run yields the same single
/// set of interfaces.
pub fn interfaces() -> (r: InterfaceState)
    ensures
        r@ == default_ifcs(),
        names_unique(r@),
{
    let mut v: Vec<Interface> = Vec::new();
    v.push(Interface::new("LOOP", 30, 0, Device::Loopback(LoopInterface)));
    v.push(Interface::new("ZMQPROXY", 10, 0, Device::ZmqProxy(ZmqProxyInterface)));
    let r = InterfaceState { interfaces: v };
    proof {
        assert(r@ =~= default_ifcs());
        lemma_default_names_unique();
    }
    r
}

/// Initialization is exactly-once in effect: any two registries built by
/// `interfaces` hold the same single set of interfaces.
pub proof fn lemma_init_exactly_once(a: InterfaceState, b: InterfaceState)
    requires
        a@ == default_ifcs(),
        b@ == default_ifcs(),
    ensures
        a@ == b@,
{
}

/// The default device set registers no name twice.
pub proof fn lemma_default_names_unique()
    ensures
        names_unique(default_ifcs()),
{
    reveal_strlit("LOOP");
    reveal_strlit("ZMQPROXY");
    assert(default_ifcs()[0].name.len() == 4);
    assert(default_ifcs()[1].name.len() == 8);
}

} // verus!
