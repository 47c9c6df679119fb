use vstd::prelude::*;

use crate::body::Body;

verus! {

/// A message between two nodes (or a node and a client or service).
#[derive(Debug, Clone, PartialEq, Eq)]
pub struct Message {
    pub src: String,
    pub dest: String,
    pub body: Body,
}

impl Message {
    /// The message that answers this one: it goes back to the sender, from the receiver.
    pub fn reply(&self, reply_body: Body) -> (res: Message)
        ensures
            res.src@ == self.dest@,
            res.dest@ == self.src@,
            res.body == reply_body,
    {
        Message { src: self.dest.clone(), dest: self.src.clone(), body: reply_body }
    }
}

/// A reply to a reply travels between the same two endpoints as the first message, in the same
/// direction.
pub proof fn lemma_reply_of_reply(m: Message, r1: Message, r2: Message)
    requires
        r1.src@ == m.dest@,
        r1.dest@ == m.src@,
        r2.src@ == r1.dest@,
        r2.dest@ == r1.src@,
    ensures
        r2.src@ == m.src@,
        r2.dest@ == m.dest@,
{
}

} // verus!
