//! The contract an application's state implements to receive the messages
//! that widgets publish.

use vstd::prelude::*;

verus! {

pub trait ApplicationModel {
    type MessageType;

    /// Apply one published message to the state.
    fn handle_message(&mut self, msg: Self::MessageType);
}

} // verus!
