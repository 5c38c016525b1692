//! The receiving end of a channel, with a record of what was taken out of it.

use crossbeam_channel::Receiver;
use vstd::prelude::*;

verus! {

/// The receiving end of a channel of crossbeam.
#[verifier::external_type_specification]
#[verifier::external_body]
#[verifier::reject_recursive_types(T)]
pub struct ExReceiver<T>(crossbeam_channel::Receiver<T>);

/// The receiving end of a channel. It records every message that is taken out, in order.
#[verifier::reject_recursive_types(T)]
pub struct Inbox<T> {
    input: Receiver<T>,
    taken: Ghost<Seq<T>>,
}

/// Takes the next message out of a channel, if there is one, without waiting. It calls crossbeam's
/// `Receiver::try_recv`. Nothing is claimed of the result: whether there is a message, and which,
/// rests with the other end of the channel.
#[verifier::external_body]
fn try_receive<T>(input: &Receiver<T>) -> (r: Option<T>) {
    input.try_recv().ok()
}

/// `message` came out of `channel`, or, where it is nothing, no message was there.
pub closed spec fn came_in<T>(channel: Receiver<T>, message: Option<T>) -> bool {
    call_ensures(try_receive::<T>, (&channel,), message)
}

impl<T> Inbox<T> {
    /// The channel that is received from.
    pub closed spec fn channel(self) -> Receiver<T> {
        self.input
    }

    /// All messages that were taken out, in the order they were.
    pub closed spec fn taken(self) -> Seq<T> {
        self.taken@
    }

    /// An inbox that nothing was taken out of yet.
    pub fn new(input: Receiver<T>) -> (r: Self)
        ensures
            r.channel() == input,
            r.taken() == Seq::<T>::empty(),
    {
        Inbox { input, taken: Ghost(Seq::empty()) }
    }

    /// Takes the next message out, if there is one, without waiting.
    pub fn take(&mut self) -> (r: Option<T>)
        ensures
            final(self).channel() == old(self).channel(),
            came_in(old(self).channel(), r),
            final(self).taken() == match r {
                Some(message) => old(self).taken().push(message),
                None => old(self).taken(),
            },
    {
        let r = try_receive(&self.input);
        proof {
            if r is Some {
                self.taken@ = self.taken@.push(r->0);
            }
        }
        r
    }
}

}
