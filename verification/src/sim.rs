//! A scripted model of the UART, for running the transmitter without
//! hardware.
//!
//! The model answers reads of the status register from a script, one value
//! per read, and reports the transmitter as ready once the script is used up.
//! It records every access in order, so a run can be inspected afterwards.

use std::collections::VecDeque;
use vstd::prelude::*;
use crate::access::{sink, Access};
use crate::regs::{UART_CTRL, UART_DATA_WR};

verus! {

/// The value that the status register holds once the script is used up: no
/// bit set, so the transmitter is ready.
pub const READY: u32 = 0;

/// The state of the simulated UART, as a mathematical value.
pub struct UartView {
    /// The values that the coming reads of the status register will return,
    /// in order. Reads beyond them return [`READY`].
    pub pending: Seq<u32>,
    /// Every access made so far, oldest first.
    pub trace: Seq<Access>,
}

impl UartView {
    /// The value that the next read of the status register returns.
    pub open spec fn status(self) -> u32 {
        if self.pending.len() > 0 {
            self.pending[0]
        } else {
            READY
        }
    }

    /// The value that a read of `address` returns now: the status for the
    /// status register, zero for any other address.
    pub open spec fn value_at(self, address: usize) -> u32 {
        if address == UART_CTRL {
            self.status()
        } else {
            0
        }
    }

    /// The state after a read of `address`. A read of the status register
    /// uses up one value of the script, if one is left; a read of any other
    /// address uses up none.
    pub open spec fn after_read(self, address: usize) -> UartView {
        UartView {
            pending: if address == UART_CTRL && self.pending.len() > 0 {
                self.pending.drop_first()
            } else {
                self.pending
            },
            trace: self.trace.push(Access::Read { address, value: self.value_at(address) }),
        }
    }

    /// The state after a write of `value` to `address`.
    pub open spec fn after_write(self, address: usize, value: u32) -> UartView {
        UartView { pending: self.pending, trace: self.trace.push(Access::Write { address, value }) }
    }
}

/// A simulated UART on a bus of its own: a status register driven by a
/// script, and a data register that swallows what is written to it.
pub struct SimUart {
    script: VecDeque<u32>,
    log: Vec<Access>,
}

impl View for SimUart {
    type V = UartView;

    closed spec fn view(&self) -> UartView {
        UartView { pending: self.script@, trace: self.log@ }
    }
}

impl SimUart {
    /// A device whose status register will return the values of `script`,
    /// one per read, and [`READY`] from then on. No access has been made yet.
    pub fn new(script: &[u32]) -> (uart: Self)
        ensures
            uart@.pending == script@,
            uart@.trace == Seq::<Access>::empty(),
    {
        let mut queue: VecDeque<u32> = VecDeque::new();
        let mut i: usize = 0;
        while i < script.len()
            invariant
                i <= script.len(),
                queue@ == script@.take(i as int),
            decreases script.len() - i,
        {
            queue.push_back(script[i]);
            i = i + 1;
        }
        SimUart { script: queue, log: Vec::new() }
    }

    /// Reads the 32-bit register at `address`.
    pub fn read(&mut self, address: usize) -> (value: u32)
        ensures
            value == old(self)@.value_at(address),
            final(self)@ == old(self)@.after_read(address),
    {
        let value: u32 = if address == UART_CTRL {
            match self.script.pop_front() {
                Some(status) => status,
                None => READY,
            }
        } else {
            0
        };
        self.log.push(Access::Read { address, value });
        value
    }

    /// Writes `value` to the 32-bit register at `address`.
    pub fn write(&mut self, address: usize, value: u32)
        ensures
            final(self)@ == old(self)@.after_write(address, value),
    {
        self.log.push(Access::Write { address, value });
    }

    /// Every access made so far, oldest first.
    pub fn trace(&self) -> (trace: &Vec<Access>)
        ensures
            trace@ == self@.trace,
    {
        &self.log
    }

    /// The bytes transmitted so far: the low eight bits of each value written
    /// to the data register, in the order of the writes.
    pub fn transmitted(&self) -> (bytes: Vec<u8>)
        ensures
            bytes@ == sink(self@.trace),
    {
        let mut bytes: Vec<u8> = Vec::new();
        let mut i: usize = 0;
        while i < self.log.len()
            invariant
                i <= self.log.len(),
                bytes@ == sink(self.log@.take(i as int)),
            decreases self.log.len() - i,
        {
            proof {
                let next = self.log@.take(i + 1);
                assert(next.drop_last() =~= self.log@.take(i as int));
            }
            match self.log[i] {
                Access::Write { address, value } if address == UART_DATA_WR => {
                    bytes.push((value & 0xff) as u8);
                },
                _ => {},
            }
            i = i + 1;
        }
        assert(self.log@.take(i as int) =~= self.log@);
        bytes
    }
}

} // verus!
