//! The execution result a contract call hands back to the host runtime:
//! attributes for the event log and messages for the host to carry out.

use vstd::prelude::*;

verus! {

/// One key/value pair of the event log.
#[derive(Clone, Debug, PartialEq, Eq)]
pub struct Attribute {
    pub key: String,
    pub value: String,
}

/// A message handed to the host, tagged by where it goes; this library only
/// issues custom messages for the chain's native module groups.
#[derive(Clone, Debug, PartialEq, Eq)]
pub enum CosmosMsg<M> {
    Custom(M),
}

/// The result of a successful execution.
#[derive(Clone, Debug, PartialEq, Eq)]
pub struct Response<M> {
    pub attributes: Vec<Attribute>,
    pub messages: Vec<CosmosMsg<M>>,
}

impl<M> Response<M> {
    /// An empty result.
    pub fn new() -> (r: Response<M>)
        ensures
            r.attributes@ == Seq::<Attribute>::empty(),
            r.messages@ == Seq::<CosmosMsg<M>>::empty(),
    {
        Response { attributes: Vec::new(), messages: Vec::new() }
    }

    /// Appends one event-log attribute.
    pub fn add_attribute(self, key: String, value: String) -> (r: Response<M>)
        ensures
            r.attributes@ == self.attributes@.push(Attribute { key, value }),
            r.messages@ == self.messages@,
    {
        let mut attributes = self.attributes;
        attributes.push(Attribute { key, value });
        Response { attributes, messages: self.messages }
    }

    /// Appends one message for the host to carry out.
    pub fn add_message(self, msg: M) -> (r: Response<M>)
        ensures
            r.attributes@ == self.attributes@,
            r.messages@ == self.messages@.push(CosmosMsg::Custom(msg)),
    {
        let mut messages = self.messages;
        messages.push(CosmosMsg::Custom(msg));
        Response { attributes: self.attributes, messages }
    }
}

} // verus!
