//! The service a server runs: it answers each request message.
use vstd::prelude::*;
use crate::server::Message;

verus! {

/// What a server does with each message it receives: the returned message
/// is sent back to the client.
///
/// A service keeps, as spec values, the log of the requests it has been
/// handed and the relation between a request and the replies it may give.
/// A service that Verus checks defines both; the defaults (an empty log,
/// and any reply for any request) are there only so that services outside
/// Verus need not name them.
pub trait Service {
    /// The bytes of each request this service has answered, oldest first.
    closed spec fn requests(&self) -> Seq<Seq<u8>> {
        Seq::empty()
    }

    /// Whether, in its present state, this service may answer `request`
    /// with `reply`.
    closed spec fn answers(&self, request: Seq<u8>, reply: Seq<u8>) -> bool {
        true
    }

    /// Answers `message`.
    fn ready(&mut self, message: Message) -> (reply: Message)
        ensures
            old(self).answers(message.buf@, reply.buf@),
            final(self).requests() == old(self).requests().push(message.buf@),
    ;
}

} // verus!
