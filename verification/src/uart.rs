//! Transmission on the simulated UART.
//!
//! The functions here perform what a [`Transmitter`] asks for on a
//! [`SimUart`], and say exactly which accesses result.

use vstd::prelude::*;
use vstd::string::StringSliceAdditionalSpecFns;
use crate::access::{
    data_write, guarded, lemma_concat_keeps_order, lemma_writes_concat, on_registers, sink,
    status_read, Access,
};
use crate::protocol::{
    after_byte, after_bytes, busy_run, byte_trace, lemma_busy_run, lemma_byte_trace,
    lemma_byte_trace_unfold, lemma_text_trace, status_at, text_trace,
};
use crate::regs::{busy, UART_CTRL};
use crate::sim::{SimUart, UartView, READY};
use crate::transmitter::{Reply, Request, Transmitter, TxView};

verus! {

/// The accesses still to come from a transmission in state `tx`, on a device
/// that will answer with `script`.
pub open spec fn rest_trace(tx: TxView, script: Seq<u32>) -> Seq<Access> {
    match tx.request() {
        Request::Idle => Seq::empty(),
        Request::Read { .. } => text_trace(script, tx.text.skip(tx.sent as int)),
        Request::Write { address, value } => seq![Access::Write { address, value }] + text_trace(
            script,
            tx.text.skip(tx.sent as int + 1),
        ),
    }
}

/// What will be left of `script` when a transmission in state `tx` is over.
pub open spec fn rest_script(tx: TxView, script: Seq<u32>) -> Seq<u32> {
    match tx.request() {
        Request::Idle => script,
        Request::Read { .. } => after_bytes(script, (tx.text.len() - tx.sent) as nat),
        Request::Write { .. } => after_bytes(script, (tx.text.len() - tx.sent - 1) as nat),
    }
}

/// Reading the status register, as asked, uses up the first of the accesses
/// still to come.
proof fn lemma_read_advances(tx: TxView, uart: UartView)
    requires
        tx.request() is Read,
    ensures
        rest_trace(tx, uart.pending) == seq![status_read(uart.status())] + rest_trace(
            tx.step(Reply::Value(uart.status())),
            uart.after_read(UART_CTRL).pending,
        ),
        rest_script(tx, uart.pending) == rest_script(
            tx.step(Reply::Value(uart.status())),
            uart.after_read(UART_CTRL).pending,
        ),
        tx.step(Reply::Value(uart.status())).finished() == tx.finished(),
{
    let left = tx.text.skip(tx.sent as int);
    let byte = tx.text[tx.sent as int];
    assert(left.drop_first() =~= tx.text.skip(tx.sent as int + 1));
    assert(!busy(READY)) by (bit_vector);
    lemma_byte_trace_unfold(uart.pending, byte);
    if uart.pending.len() > 0 && busy(uart.pending[0]) {
        lemma_byte_trace_unfold(uart.pending.drop_first(), byte);
    }
}

/// Writing the data register, as asked, uses up the first of the accesses
/// still to come.
proof fn lemma_write_advances(tx: TxView, script: Seq<u32>)
    requires
        tx.request() is Write,
    ensures
        rest_trace(tx, script) == seq![data_write(tx.text[tx.sent as int] as u32)] + rest_trace(
            tx.step(Reply::Written),
            script,
        ),
        rest_script(tx, script) == rest_script(tx.step(Reply::Written), script),
        tx.step(Reply::Written).finished() == tx.finished(),
{
}

/// Performs on `uart` what `tx` asks for, access by access, until it asks for
/// nothing more, and returns the transmitter as it then is.
pub fn transmit<'a>(uart: &mut SimUart, tx: Transmitter<'a>) -> (done: Transmitter<'a>)
    ensures
        final(uart)@.trace == old(uart)@.trace + rest_trace(tx@, old(uart)@.pending),
        final(uart)@.pending == rest_script(tx@, old(uart)@.pending),
        done@ == tx@.finished(),
        done@.request() is Idle,
{
    let ghost goal_trace = uart@.trace + rest_trace(tx@, uart@.pending);
    let ghost goal_script = rest_script(tx@, uart@.pending);
    let ghost goal_state = tx@.finished();
    let mut tx = tx;
    loop
        invariant
            uart@.trace + rest_trace(tx@, uart@.pending) == goal_trace,
            rest_script(tx@, uart@.pending) == goal_script,
            tx@.finished() == goal_state,
        ensures
            uart@.trace == goal_trace,
            uart@.pending == goal_script,
            tx@ == goal_state,
            tx@.request() is Idle,
        decreases rest_trace(tx@, uart@.pending).len(),
    {
        match tx.request() {
            Request::Read { address } => {
                proof {
                    lemma_read_advances(tx@, uart@);
                }
                let value: u32 = uart.read(address);
                tx = tx.step(Reply::Value(value));
            },
            Request::Write { address, value } => {
                proof {
                    lemma_write_advances(tx@, uart@.pending);
                }
                uart.write(address, value);
                tx = tx.step(Reply::Written);
            },
            Request::Idle => {
                break ;
            },
        }
    }
    tx
}

/// Transmits one byte: polls the status register until the busy bit reads
/// clear, then writes the byte, zero-extended, to the data register.
///
/// The status register is read once for each busy answer and once more for
/// the clear one, so a device that is busy for `n` reads sees exactly `n + 1`
/// of them before the write. The write is the last access made, and the read
/// directly before it is the one that showed the busy bit clear.
pub fn uart_putc(uart: &mut SimUart, c: u8)
    ensures
        final(uart)@.trace == old(uart)@.trace + byte_trace(old(uart)@.pending, c),
        final(uart)@.pending == after_byte(old(uart)@.pending),
        final(uart)@.trace.len() == old(uart)@.trace.len() + busy_run(old(uart)@.pending) + 2,
        final(uart)@.trace.last() == data_write(c as u32),
        final(uart)@.trace[final(uart)@.trace.len() - 2] == status_read(
            status_at(old(uart)@.pending, busy_run(old(uart)@.pending) as int),
        ),
        !busy(status_at(old(uart)@.pending, busy_run(old(uart)@.pending) as int)),
        on_registers(old(uart)@.trace) ==> on_registers(final(uart)@.trace),
        guarded(old(uart)@.trace) ==> guarded(final(uart)@.trace),
        sink(final(uart)@.trace) == sink(old(uart)@.trace).push(c),
{
    let text: [u8; 1] = [c];
    let tx = Transmitter::new(text.as_slice());
    proof {
        let script = uart@.pending;
        let left = tx@.text.skip(0);
        assert(text_trace(after_byte(script), left.drop_first()) =~= Seq::<Access>::empty());
        assert(after_bytes(after_byte(script), 0) == after_byte(script));
        lemma_busy_run(script);
        lemma_byte_trace(script, c);
        lemma_writes_concat(uart@.trace, byte_trace(script, c));
        lemma_concat_keeps_order(uart@.trace, byte_trace(script, c));
    }
    transmit(uart, tx);
}

/// Transmits the bytes of `s` in order, each as [`uart_putc`] does, with
/// nothing added between or after them.
pub fn uart_puts(uart: &mut SimUart, s: &str)
    ensures
        final(uart)@.trace == old(uart)@.trace + text_trace(old(uart)@.pending, s.spec_bytes()),
        final(uart)@.pending == after_bytes(old(uart)@.pending, s.spec_bytes().len()),
        on_registers(old(uart)@.trace) ==> on_registers(final(uart)@.trace),
        guarded(old(uart)@.trace) ==> guarded(final(uart)@.trace),
        sink(final(uart)@.trace) == sink(old(uart)@.trace) + s.spec_bytes(),
{
    let tx = Transmitter::new(s.as_bytes());
    proof {
        let script = uart@.pending;
        assert(tx@.text.skip(0) =~= s.spec_bytes());
        lemma_text_trace(script, s.spec_bytes());
        lemma_writes_concat(uart@.trace, text_trace(script, s.spec_bytes()));
        lemma_concat_keeps_order(uart@.trace, text_trace(script, s.spec_bytes()));
    }
    transmit(uart, tx);
}

} // verus!
