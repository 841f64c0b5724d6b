//! The actor pattern: state that handles one message at a time.
use vstd::prelude::*;

verus! {

/// An actor: state that handles the messages sent to it one at a time.
/// `ready` is what its state keeps between messages.
pub trait Actor {
    /// The messages this actor handles.
    type Message;
    /// What a failed message reports.
    type Error;

    /// The state is fit to handle the next message.
    spec fn ready(&self) -> bool;

    /// Handle one message.
    fn handle(&mut self, msg: Self::Message) -> (res: Result<(), Self::Error>)
        requires
            old(self).ready(),
        ensures
            final(self).ready(),
    ;
}

} // verus!
