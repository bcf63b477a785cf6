//! The command channel: the ordered, unbounded conduit that carries locators
//! from connection ingest to the control loop.

use std::collections::VecDeque;
use vstd::prelude::*;

verus! {

/// Why a locator could not be sent.
#[derive(Clone, Copy, Debug, PartialEq, Eq)]
pub enum SendError {
    /// The receiving side has gone away.
    Disconnected,
}

/// The locators that were sent and not yet received, oldest first, and
/// whether anyone is still there to receive them.
///
/// One owner works on a channel at a time: a program that shares it between
/// threads keeps it under a lock.
pub struct CommandChannel {
    queue: VecDeque<String>,
    receiver_alive: bool,
    taken: Ghost<Seq<Seq<char>>>,
}

impl CommandChannel {
    /// The locators waiting in the channel, oldest first.
    pub closed spec fn pending(&self) -> Seq<Seq<char>> {
        Seq::new(self.queue@.len(), |i: int| self.queue@[i]@)
    }

    /// The locators that were received from the channel, oldest first.
    pub closed spec fn received(&self) -> Seq<Seq<char>> {
        self.taken@
    }

    /// Every locator that was ever sent, in the order of sending: those
    /// received, then those waiting.
    pub open spec fn sent(&self) -> Seq<Seq<char>> {
        self.received() + self.pending()
    }

    /// True while the receiving side is alive.
    pub closed spec fn is_open(&self) -> bool {
        self.receiver_alive
    }

    /// An empty channel with a live receiver.
    pub fn new() -> (channel: CommandChannel)
        ensures
            channel.pending() == Seq::<Seq<char>>::empty(),
            channel.received() == Seq::<Seq<char>>::empty(),
            channel.is_open(),
    {
        CommandChannel { queue: VecDeque::new(), receiver_alive: true, taken: Ghost(Seq::empty()) }
    }

    /// Puts `locator` behind everything that was sent before. Fails, and
    /// changes nothing, exactly when the receiver is gone.
    pub fn send(&mut self, locator: String) -> (sent: Result<(), SendError>)
        ensures
            final(self).is_open() == old(self).is_open(),
            final(self).received() == old(self).received(),
            old(self).is_open() ==> {
                &&& sent is Ok
                &&& final(self).pending() == old(self).pending().push(locator@)
                &&& final(self).sent() == old(self).sent().push(locator@)
            },
            !old(self).is_open() ==> {
                &&& sent == Err::<(), SendError>(SendError::Disconnected)
                &&& final(self).pending() == old(self).pending()
            },
    {
        if self.receiver_alive {
            self.queue.push_back(locator);
            Ok(())
        } else {
            Err(SendError::Disconnected)
        }
    }

    /// Takes the oldest waiting locator, if there is one. Never waits.
    ///
    /// Receiving moves a locator from those waiting to those received and
    /// leaves what was sent as it is: each locator comes out once, in the
    /// order of sending.
    pub fn try_recv(&mut self) -> (received: Option<String>)
        ensures
            final(self).is_open() == old(self).is_open(),
            final(self).sent() == old(self).sent(),
            old(self).pending().len() == 0 ==> {
                &&& received is None
                &&& final(self).pending() == old(self).pending()
                &&& final(self).received() == old(self).received()
            },
            old(self).pending().len() > 0 ==> {
                &&& received matches Some(locator)
                &&& locator@ == old(self).pending().first()
                &&& final(self).pending() == old(self).pending().drop_first()
                &&& final(self).received() == old(self).received().push(locator@)
            },
    {
        let received = self.queue.pop_front();
        match &received {
            Some(locator) => {
                self.taken = Ghost(self.taken@.push(locator@));
            },
            None => {},
        }
        received
    }

    /// Records that the receiving side has gone away: from now on every send
    /// fails.
    pub fn disconnect(&mut self)
        ensures
            !final(self).is_open(),
            final(self).pending() == old(self).pending(),
            final(self).received() == old(self).received(),
    {
        self.receiver_alive = false;
    }

    /// The number of locators waiting.
    pub fn len(&self) -> (n: usize)
        ensures
            n == self.pending().len(),
    {
        self.queue.len()
    }
}

} // verus!
