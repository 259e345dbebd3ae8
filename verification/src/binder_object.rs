//! What an object is to the runtime: something that takes a packet and
//! may give one back.

use crate::packet::{Packet, PacketView};
use vstd::prelude::*;

verus! {

/// Why a transaction came to nothing.
#[derive(Clone, Debug, PartialEq, Eq)]
pub enum TransactionError {
    /// The target is gone.
    UnreachableTarget,
    /// The kernel refused to deliver the transaction.
    FailedReply,
    /// The reply could not be read as what was expected.
    MalformedReply,
    /// The target reported an error of its own.
    RemoteError(String),
    /// An error came up on this side before anything was sent.
    LocalError(String),
}

impl TransactionError {
    /// The name of the error, or its message where it has one.
    pub open spec fn spec_describe(&self) -> Seq<char> {
        match self {
            TransactionError::UnreachableTarget => "UnreachableTarget"@,
            TransactionError::FailedReply => "FailedReply"@,
            TransactionError::MalformedReply => "MalformedReply"@,
            TransactionError::RemoteError(message) => message@,
            TransactionError::LocalError(message) => message@,
        }
    }

    /// The name of the error, or its message where it has one.
    pub fn describe(&self) -> (text: String)
        ensures
            text@ == self.spec_describe(),
    {
        match self {
            TransactionError::UnreachableTarget => "UnreachableTarget".to_string(),
            TransactionError::FailedReply => "FailedReply".to_string(),
            TransactionError::MalformedReply => "MalformedReply".to_string(),
            TransactionError::RemoteError(message) => message.clone(),
            TransactionError::LocalError(message) => message.clone(),
        }
    }
}

/// An object that transactions can be sent to, local or remote alike. A
/// transaction that expects no reply gets none; any other gets one.
pub trait Object {
    /// Whether `result` is what the object may give for the transaction
    /// `packet`. An object of which nothing more is said may give anything.
    open spec fn answers(
        &self,
        packet: PacketView,
        result: Result<Option<Packet>, TransactionError>,
    ) -> bool {
        true
    }

    /// Carries out the transaction that `packet` describes.
    fn do_transaction(&self, packet: &Packet) -> (r: Result<Option<Packet>, TransactionError>)
        requires
            packet.wf(),
        ensures
            self.answers(packet@, r),
    ;
}

/// A typed object that can be made from a proxy of the kind `P`, which
/// may first ask the remote side whether it is what the type expects.
pub trait FromProxy<P>: Sized {
    /// Whether `r` is what the type makes of `proxy`. A type of which
    /// nothing more is said may make anything of it.
    open spec fn makes(proxy: P, r: Result<Self, ()>) -> bool {
        true
    }

    /// The typed object for `proxy`, or an error where the remote side is
    /// of another kind.
    fn from_proxy(proxy: P) -> (r: Result<Self, ()>)
        ensures
            Self::makes(proxy, r),
    ;
}

/// A typed object that can be made from a reference of the kind `P` to a
/// remote object.
pub trait CreateInterfaceObject<P>: Sized {
    /// The typed object for `remote_ref`, or an error where the remote
    /// side is of another kind.
    fn try_from_remote(remote_ref: P) -> (r: Result<Self, ()>);
}

} // verus!
