//! Sending into the channel on which unsolicited responses are reported.

use vstd::prelude::*;

verus! {

/// The sending half of a channel. The channel is shared with its receivers and other senders, so
/// nothing is known of what it holds.
#[verifier::external_type_specification]
#[verifier::external_body]
#[verifier::reject_recursive_types(T)]
pub struct ExSender<T>(async_channel::Sender<T>);

/// A message that was offered to a channel.
pub struct Offer<T> {
    pub message: T,
    /// Whether the channel took the message.
    pub taken: bool,
}

/// The sending half of a channel, with a log of all that was offered through it.
///
/// The sender is private: only `try_send` offers a message through it.
#[verifier::reject_recursive_types(T)]
pub struct Outbox<T> {
    sender: async_channel::Sender<T>,
    log: Ghost<Seq<Offer<T>>>,
}

impl<T> Outbox<T> {
    /// The channel that messages are offered to.
    pub closed spec fn sender(self) -> async_channel::Sender<T> {
        self.sender
    }

    /// All that was offered so far, the latest last.
    pub closed spec fn log(self) -> Seq<Offer<T>> {
        self.log@
    }

    /// An outbox for this channel, through which nothing has been offered yet.
    pub fn new(sender: async_channel::Sender<T>) -> (outbox: Self)
        ensures
            outbox.sender() == sender,
            outbox.log() == Seq::<Offer<T>>::empty(),
    {
        Outbox { sender, log: Ghost(Seq::empty()) }
    }

    /// Calls `async_channel::Sender::try_send`, which puts the message into the channel unless the
    /// channel is full or closed. Claimed: this message and no other is offered, to the same
    /// channel as before; the result tells whether it was taken; and a message that was not taken
    /// comes back as it was. Whether the channel takes a message, and what becomes of one that it
    /// took, depends on those who share the channel, so nothing is said of that.
    #[verifier::external_body]
    pub(crate) fn try_send(&mut self, message: T) -> (refused: Option<T>)
        ensures
            final(self).sender() == old(self).sender(),
            final(self).log() == old(self).log().push(
                (Offer { message, taken: refused is None }),
            ),
            refused matches Some(returned) ==> returned == message,
    {
        let ghost offered = message;
        let refused = match self.sender.try_send(message) {
            Ok(()) => None,
            Err(error) => Some(error.into_inner()),
        };
        self.log = Ghost(self.log@.push(Offer { message: offered, taken: refused is None }));
        refused
    }
}

} // verus!
