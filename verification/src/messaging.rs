//! The messages that drive a connection.

use vstd::prelude::*;
use crate::registry::Pkg;
use crate::types::{Endpoint, Error};

verus! {

/// What happens to a connection: a command from the user, an event from the
/// network, or a tick of the clock.
pub enum Msg<O> {
    Start,
    Shutdown,
    Tick,
    Establish(Endpoint),
    Established(u128),
    Arrived(Pkg),
    ConnectionClosed(u128, Error),
    DiscoveryError(Error),
    NewOp(O),
    Send(Pkg),
    /// Used as checkpoint detection.
    Marker,
}

impl<O> Msg<O> {
    pub fn new_op(op: O) -> (r: Msg<O>)
        ensures
            r == Msg::NewOp(op),
    {
        Msg::NewOp(op)
    }
}

} // verus!
