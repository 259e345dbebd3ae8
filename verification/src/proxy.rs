//! One call surface for objects here and elsewhere: whoever holds a
//! reference sends it transactions without asking where the object lives.

use crate::binder_object::{CreateInterfaceObject, FromProxy, Object, TransactionError};
use crate::packet::{Packet, PacketView};
use vstd::prelude::*;

verus! {

/// A reference to an object that lives in this process, or to one that
/// lives in another and is reached through a proxy.
#[derive(Clone, Debug)]
pub enum Reference<L, R> {
    Local(L),
    Remote(R),
}

impl<L, R> Reference<L, R> {
    /// Whether the object lives in this process.
    pub fn is_local(&self) -> (yes: bool)
        ensures
            yes == (self is Local),
    {
        match self {
            Reference::Local(_) => true,
            Reference::Remote(_) => false,
        }
    }
}

impl<L: Object, R: Object> Object for Reference<L, R> {
    /// What the object itself gives where it lives here, and what its proxy
    /// gives where it does not.
    open spec fn answers(
        &self,
        packet: PacketView,
        result: Result<Option<Packet>, TransactionError>,
    ) -> bool {
        match self {
            Reference::Local(object) => object.answers(packet, result),
            Reference::Remote(proxy) => proxy.answers(packet, result),
        }
    }

    /// Hands the transaction to the object itself where it lives here, and
    /// to its proxy where it does not.
    fn do_transaction(&self, packet: &Packet) -> (r: Result<Option<Packet>, TransactionError>) {
        match self {
            Reference::Local(object) => object.do_transaction(packet),
            Reference::Remote(proxy) => proxy.do_transaction(packet),
        }
    }
}

/// A context manager of which nothing is known but that it can be
/// reached: every transaction goes to its proxy.
pub struct GenericContextManager<P> {
    proxy: P,
}

impl<P> GenericContextManager<P> {
    /// The proxy that the transactions go to.
    pub closed spec fn spec_proxy(&self) -> P {
        self.proxy
    }

    /// The proxy that the transactions go to.
    pub fn proxy(&self) -> (proxy: &P)
        ensures
            *proxy == self.spec_proxy(),
    {
        &self.proxy
    }
}

impl<P: Object> Object for GenericContextManager<P> {
    /// What the proxy gives.
    open spec fn answers(
        &self,
        packet: PacketView,
        result: Result<Option<Packet>, TransactionError>,
    ) -> bool {
        self.spec_proxy().answers(packet, result)
    }

    /// Hands the transaction to the proxy.
    fn do_transaction(&self, packet: &Packet) -> (r: Result<Option<Packet>, TransactionError>) {
        self.proxy.do_transaction(packet)
    }
}

impl<P> FromProxy<P> for GenericContextManager<P> {
    /// The context manager that holds `proxy`, and never an error.
    open spec fn makes(proxy: P, r: Result<Self, ()>) -> bool {
        r matches Ok(manager) && manager.spec_proxy() == proxy
    }

    /// Takes any proxy.
    fn from_proxy(proxy: P) -> (r: Result<Self, ()>)
        ensures
            r matches Ok(manager) && manager.spec_proxy() == proxy,
    {
        Ok(GenericContextManager { proxy })
    }
}

impl<P> CreateInterfaceObject<P> for GenericContextManager<P> {
    /// Takes any reference.
    fn try_from_remote(remote_ref: P) -> (r: Result<Self, ()>)
        ensures
            r matches Ok(manager) && manager.spec_proxy() == remote_ref,
    {
        Ok(GenericContextManager { proxy: remote_ref })
    }
}

} // verus!
