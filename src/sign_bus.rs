use vstd::prelude::*;

use crate::message::Message;

verus! {

/// An error reported by a bus, carried as its description.
#[derive(Debug, Clone, PartialEq, Eq)]
pub struct BusError {
    description: String,
}

impl View for BusError {
    type V = Seq<char>;

    closed spec fn view(&self) -> Seq<char> {
        self.description@
    }
}

impl BusError {
    /// Creates a bus error with the given description.
    pub fn new(description: String) -> (r: BusError)
        ensures
            r@ == description@,
    {
        BusError { description }
    }

    /// The description of what went wrong.
    pub fn description(&self) -> (r: &str)
        ensures
            r@ == self@,
    {
        self.description.as_str()
    }
}

/// A bus of devices that send and receive [`Message`]s.
///
/// The caller is the controller: `process_message` delivers a message to the bus and returns
/// the reply, if the protocol expects one.
pub trait SignBus {
    /// Sends a message to the bus and returns an optional reply.
    fn process_message(&mut self, message: Message) -> Result<Option<Message>, BusError>;
}

} // verus!
