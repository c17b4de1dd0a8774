//! The accesses that a transmission consists of, given the values that the
//! status register is going to return.
//!
//! A script is the sequence of values that the coming reads of the status
//! register return; reads beyond its end return [`READY`]. For each byte the
//! transmitter polls until the busy bit reads clear and then writes the byte,
//! so a script fixes the whole sequence of accesses.

use vstd::prelude::*;
use crate::access::{
    data_write, guarded, lemma_concat_keeps_order, lemma_reads_write_nothing,
    lemma_writes_concat, low_byte, on_registers, sink, status_read, writes, Access,
};
use crate::regs::{busy, UART_DATA_WR};
use crate::sim::READY;

verus! {

/// The value that the read number `i` from now returns, counting from 0.
pub open spec fn status_at(script: Seq<u32>, i: int) -> u32 {
    if 0 <= i < script.len() {
        script[i]
    } else {
        READY
    }
}

/// How many reads from now report the transmitter as busy before the first
/// one that does not.
pub open spec fn busy_run(script: Seq<u32>) -> nat
    decreases script.len(),
{
    if script.len() > 0 && busy(script[0]) {
        1 + busy_run(script.drop_first())
    } else {
        0
    }
}

/// The reads of the status register made for one byte: one for each busy
/// answer, and the one that is answered with the busy bit clear.
pub open spec fn polls(script: Seq<u32>) -> Seq<Access> {
    Seq::new(busy_run(script) + 1, |i: int| status_read(status_at(script, i)))
}

/// The accesses that transmit one byte: the polls, then a single write of the
/// byte, zero-extended to 32 bits, to the data register.
pub open spec fn byte_trace(script: Seq<u32>, byte: u8) -> Seq<Access> {
    polls(script).push(data_write(byte as u32))
}

/// What is left of the script once one byte has been transmitted.
pub open spec fn after_byte(script: Seq<u32>) -> Seq<u32> {
    if busy_run(script) < script.len() {
        script.skip(busy_run(script) as int + 1)
    } else {
        Seq::empty()
    }
}

/// The accesses that transmit `text`: those of each byte in turn, first byte
/// first, with nothing in between.
pub open spec fn text_trace(script: Seq<u32>, text: Seq<u8>) -> Seq<Access>
    decreases text.len(),
{
    if text.len() == 0 {
        Seq::empty()
    } else {
        byte_trace(script, text[0]) + text_trace(after_byte(script), text.drop_first())
    }
}

/// What is left of the script once `count` bytes have been transmitted.
pub open spec fn after_bytes(script: Seq<u32>, count: nat) -> Seq<u32>
    decreases count,
{
    if count == 0 {
        script
    } else {
        after_bytes(after_byte(script), (count - 1) as nat)
    }
}

/// The answer that ends the polling is the first one with the busy bit clear:
/// all answers before it are busy, and it is not.
pub proof fn lemma_busy_run(script: Seq<u32>)
    ensures
        busy_run(script) <= script.len(),
        forall|i: int| 0 <= i < busy_run(script) ==> busy(#[trigger] script[i]),
        !busy(status_at(script, busy_run(script) as int)),
    decreases script.len(),
{
    assert(!busy(READY)) by (bit_vector);
    if script.len() > 0 && busy(script[0]) {
        let rest = script.drop_first();
        lemma_busy_run(rest);
        assert forall|i: int| 0 <= i < busy_run(script) implies busy(#[trigger] script[i]) by {
            if i > 0 {
                assert(script[i] == rest[i - 1]);
            }
        }
    }
}

/// How the accesses for one byte begin. While the first answer is busy, they
/// are that read followed by the accesses for the byte on the rest of the
/// script. Otherwise they are that read and the write, and the script loses
/// the answer, if it had one left.
pub proof fn lemma_byte_trace_unfold(script: Seq<u32>, byte: u8)
    ensures
        script.len() > 0 && busy(script[0]) ==> {
            &&& byte_trace(script, byte) == seq![status_read(script[0])] + byte_trace(
                script.drop_first(),
                byte,
            )
            &&& after_byte(script) == after_byte(script.drop_first())
        },
        !(script.len() > 0 && busy(script[0])) ==> {
            &&& byte_trace(script, byte) == seq![
                status_read(status_at(script, 0)),
                data_write(byte as u32),
            ]
            &&& after_byte(script) == if script.len() > 0 {
                script.drop_first()
            } else {
                script
            }
        },
{
    if script.len() > 0 && busy(script[0]) {
        let rest = script.drop_first();
        lemma_busy_run(rest);
        assert forall|i: int| 0 <= i implies status_at(rest, i) == status_at(script, i + 1) by {}
    }
}

/// On a device that reports busy for exactly `n` reads and then clear, one
/// byte takes exactly `n + 1` reads of the status register, answered as the
/// script says, followed by the one write of the byte. The read directly
/// before the write is the one that showed the busy bit clear.
pub proof fn lemma_busy_for(script: Seq<u32>, n: nat, byte: u8)
    requires
        n <= script.len(),
        forall|i: int| 0 <= i < n ==> busy(#[trigger] script[i]),
        !busy(status_at(script, n as int)),
    ensures
        busy_run(script) == n,
        byte_trace(script, byte).len() == n + 2,
        forall|i: int|
            0 <= i <= n ==> #[trigger] byte_trace(script, byte)[i] == status_read(
                status_at(script, i),
            ),
        byte_trace(script, byte)[n as int + 1] == data_write(byte as u32),
    decreases script.len(),
{
    if script.len() > 0 && busy(script[0]) {
        lemma_busy_for(script.drop_first(), (n - 1) as nat, byte);
    }
}

/// The accesses for one byte open with a read, touch the two registers
/// only, and hold one write, directly after a read that showed the busy bit
/// clear. They write the byte, zero-extended, to the data register, and so
/// transmit that byte and nothing else.
pub proof fn lemma_byte_trace(script: Seq<u32>, byte: u8)
    ensures
        byte_trace(script, byte)[0] is Read,
        on_registers(byte_trace(script, byte)),
        guarded(byte_trace(script, byte)),
        writes(byte_trace(script, byte)) == seq![(UART_DATA_WR, byte as u32)],
        sink(byte_trace(script, byte)) == seq![byte],
{
    let trace = byte_trace(script, byte);
    lemma_busy_run(script);
    lemma_reads_write_nothing(polls(script));
    assert(trace.drop_last() =~= polls(script));
    assert(low_byte(byte as u32) == byte) by (bit_vector);
}

/// The accesses for a text do not open with a write, touch the two registers
/// only, and keep every write directly behind a read that showed the busy
/// bit clear. They write the bytes of the text, zero-extended, to the data
/// register, one write each and in the order of the text, and so transmit
/// the text byte for byte: nothing added, nothing left out, nothing
/// reordered.
pub proof fn lemma_text_trace(script: Seq<u32>, text: Seq<u8>)
    ensures
        text.len() > 0 ==> text_trace(script, text)[0] is Read,
        on_registers(text_trace(script, text)),
        guarded(text_trace(script, text)),
        writes(text_trace(script, text)) == text.map_values(
            |byte: u8| (UART_DATA_WR, byte as u32),
        ),
        sink(text_trace(script, text)) == text,
    decreases text.len(),
{
    if text.len() > 0 {
        let head = byte_trace(script, text[0]);
        let tail = text_trace(after_byte(script), text.drop_first());
        lemma_byte_trace(script, text[0]);
        lemma_text_trace(after_byte(script), text.drop_first());
        lemma_concat_keeps_order(head, tail);
        lemma_writes_concat(head, tail);
    }
}

} // verus!
