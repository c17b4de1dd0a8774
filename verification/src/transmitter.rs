//! The transmit decisions as a state machine.
//!
//! A [`Transmitter`] never touches a register. It says which access comes
//! next ([`Transmitter::request`]) and takes the outcome of that access
//! ([`Transmitter::step`]). Whoever performs the accesses, on the peripheral
//! or on a model of it, gets the protocol by following it: poll the status
//! register until the busy bit reads clear, write one byte to the data
//! register, and so on for each byte of the text.

use vstd::prelude::*;
use crate::regs::{busy, is_busy, UART_CTRL, UART_DATA_WR};

verus! {

/// What the transmitter needs done next.
#[derive(Clone, Copy, Debug, PartialEq, Eq, Structural)]
pub enum Request {
    /// Read the 32-bit register at `address` and report its value.
    Read { address: usize },
    /// Write `value` to the 32-bit register at `address`.
    Write { address: usize, value: u32 },
    /// Nothing is left to transmit: touch no register any more.
    Idle,
}

/// The outcome of an access that the transmitter asked for.
#[derive(Clone, Copy, Debug, PartialEq, Eq, Structural)]
pub enum Reply {
    /// The register was read and held this value.
    Value(u32),
    /// The value was written.
    Written,
}

/// The state of a transmitter, as a mathematical value.
pub struct TxView {
    /// The whole text to transmit.
    pub text: Seq<u8>,
    /// How many bytes of it have been written to the data register.
    pub sent: nat,
    /// Whether the status register has read clear since the last write.
    pub cleared: bool,
}

impl TxView {
    /// The state before anything of `text` has been transmitted.
    pub open spec fn start(text: Seq<u8>) -> TxView {
        TxView { text, sent: 0, cleared: false }
    }

    /// The access that this state asks for: a read of the status register
    /// while the busy bit has not been seen clear, then a write of the next
    /// byte, zero-extended to 32 bits, to the data register; nothing once the
    /// whole text is sent.
    pub open spec fn request(self) -> Request {
        if self.sent >= self.text.len() {
            Request::Idle
        } else if self.cleared {
            Request::Write { address: UART_DATA_WR, value: self.text[self.sent as int] as u32 }
        } else {
            Request::Read { address: UART_CTRL }
        }
    }

    /// The state after `reply`. A busy status changes nothing, so the status
    /// is asked for again; a clear one allows the write; a completed write
    /// moves on to the next byte, which starts with a fresh poll. A reply to
    /// something that was not asked for is ignored.
    pub open spec fn step(self, reply: Reply) -> TxView {
        match (self.request(), reply) {
            (Request::Read { .. }, Reply::Value(status)) => TxView {
                cleared: !busy(status),
                ..self
            },
            (Request::Write { .. }, Reply::Written) => TxView {
                sent: self.sent + 1,
                cleared: false,
                ..self
            },
            _ => self,
        }
    }

    /// The state in which this transmission ends: the state itself if it
    /// already idles, else the one with the whole text sent.
    pub open spec fn finished(self) -> TxView {
        if self.request() is Idle {
            self
        } else {
            TxView { sent: self.text.len(), cleared: false, ..self }
        }
    }

    /// The state after a whole sequence of replies, taken in order.
    pub open spec fn run(self, replies: Seq<Reply>) -> TxView
        decreases replies.len(),
    {
        if replies.len() == 0 {
            self
        } else {
            self.step(replies[0]).run(replies.drop_first())
        }
    }
}

/// The transmitter asks for a write only once the status register has shown
/// the busy bit clear: a state that asks for one either was just given such a
/// status in answer to its poll, or was asking for that same write before and
/// has not been told that it was made.
pub proof fn lemma_write_needs_clear_status(tx: TxView, reply: Reply)
    ensures
        tx.step(reply).request() is Write ==> {
            ||| {
                &&& tx.request() == (Request::Read { address: UART_CTRL })
                &&& reply matches Reply::Value(status)
                &&& !busy(status)
            }
            ||| {
                &&& tx.request() is Write
                &&& reply is Value
                &&& tx.step(reply) == tx
            }
        },
{
}

/// A completed write is never followed by another write: the next byte, if
/// there is one, starts with a poll of the status register.
pub proof fn lemma_write_then_poll(tx: TxView)
    requires
        tx.request() is Write,
    ensures
        tx.step(Reply::Written).sent == tx.sent + 1,
        tx.step(Reply::Written).request() == (Request::Read { address: UART_CTRL })
            || tx.step(Reply::Written).request() is Idle,
{
}

/// There is no timeout: while the status register reads busy, the
/// transmitter keeps asking for it and nothing else changes, however long
/// that goes on.
pub proof fn lemma_waits_while_busy(tx: TxView, statuses: Seq<u32>)
    requires
        tx.request() is Read,
        forall|i: int| 0 <= i < statuses.len() ==> busy(#[trigger] statuses[i]),
    ensures
        tx.run(statuses.map_values(|status: u32| Reply::Value(status))) == tx,
    decreases statuses.len(),
{
    let replies = statuses.map_values(|status: u32| Reply::Value(status));
    if statuses.len() > 0 {
        assert(replies.drop_first() =~= statuses.drop_first().map_values(
            |status: u32| Reply::Value(status),
        ));
        lemma_waits_while_busy(tx, statuses.drop_first());
    }
}

/// Once the transmitter idles it idles for good: whatever it is told from
/// then on, its state stays as it is, and so it never asks for a register
/// again.
pub proof fn lemma_idle_is_final(tx: TxView, replies: Seq<Reply>)
    requires
        tx.request() is Idle,
    ensures
        tx.run(replies) == tx,
    decreases replies.len(),
{
    if replies.len() > 0 {
        lemma_idle_is_final(tx, replies.drop_first());
    }
}

/// A transmission in progress: the text and how far it has got.
#[derive(Clone, Copy, Debug)]
pub struct Transmitter<'a> {
    text: &'a [u8],
    sent: usize,
    cleared: bool,
}

impl<'a> View for Transmitter<'a> {
    type V = TxView;

    closed spec fn view(&self) -> TxView {
        TxView { text: self.text@, sent: self.sent as nat, cleared: self.cleared }
    }
}

impl<'a> Transmitter<'a> {
    /// A transmitter that is about to send `text`, first byte first.
    pub fn new(text: &'a [u8]) -> (tx: Self)
        ensures
            tx@ == TxView::start(text@),
    {
        Transmitter { text, sent: 0, cleared: false }
    }

    /// The access to perform next.
    pub fn request(&self) -> (r: Request)
        ensures
            r == self@.request(),
    {
        if self.sent >= self.text.len() {
            Request::Idle
        } else if self.cleared {
            Request::Write { address: UART_DATA_WR, value: self.text[self.sent] as u32 }
        } else {
            Request::Read { address: UART_CTRL }
        }
    }

    /// Takes the outcome of the access that [`Transmitter::request`] named.
    pub fn step(self, reply: Reply) -> (next: Self)
        ensures
            next@ == self@.step(reply),
    {
        match (self.request(), reply) {
            (Request::Read { .. }, Reply::Value(status)) => Transmitter {
                text: self.text,
                sent: self.sent,
                cleared: !is_busy(status),
            },
            (Request::Write { .. }, Reply::Written) => {
                assert(self.sent < self.text@.len() == self.text.len());
                Transmitter { text: self.text, sent: self.sent + 1, cleared: false }
            },
            _ => self,
        }
    }
}

} // verus!
