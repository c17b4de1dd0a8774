//! Register accesses as they appear on the bus, and what a sequence of them
//! amounts to.

use vstd::prelude::*;
use crate::regs::{busy, UART_CTRL, UART_DATA_WR};

verus! {

/// One 32-bit access on the bus.
#[derive(Clone, Copy, Debug, PartialEq, Eq, Structural)]
pub enum Access {
    /// A read of `address`, which returned `value`.
    Read { address: usize, value: u32 },
    /// A write of `value` to `address`.
    Write { address: usize, value: u32 },
}

/// A read of the status register that returned `value`.
pub open spec fn status_read(value: u32) -> Access {
    Access::Read { address: UART_CTRL, value }
}

/// A write of `value` to the data register.
pub open spec fn data_write(value: u32) -> Access {
    Access::Write { address: UART_DATA_WR, value }
}

/// The byte that a write of `word` to the data register puts on the line:
/// its low eight bits.
pub open spec fn low_byte(word: u32) -> u8 {
    (word & 0xff) as u8
}

/// The writes among a sequence of accesses, each as address and value, in
/// the order in which they were made.
pub open spec fn writes(trace: Seq<Access>) -> Seq<(usize, u32)>
    decreases trace.len(),
{
    if trace.len() == 0 {
        Seq::empty()
    } else {
        match trace.last() {
            Access::Write { address, value } => writes(trace.drop_last()).push((address, value)),
            Access::Read { .. } => writes(trace.drop_last()),
        }
    }
}

/// The bytes that a sequence of accesses transmits: the low byte of each
/// value written to the data register, in the order of the writes.
pub open spec fn sink(trace: Seq<Access>) -> Seq<u8>
    decreases trace.len(),
{
    if trace.len() == 0 {
        Seq::empty()
    } else {
        match trace.last() {
            Access::Write { address, value } if address == UART_DATA_WR => sink(
                trace.drop_last(),
            ).push(low_byte(value)),
            _ => sink(trace.drop_last()),
        }
    }
}

/// Every read is of the status register and every write goes to the data
/// register: the status register is never written, the data register never
/// read, and no other address is touched.
pub open spec fn on_registers(trace: Seq<Access>) -> bool {
    forall|i: int|
        0 <= i < trace.len() ==> match #[trigger] trace[i] {
            Access::Read { address, .. } => address == UART_CTRL,
            Access::Write { address, .. } => address == UART_DATA_WR,
        }
}

/// Every write comes directly after a read of the status register that
/// showed the busy bit clear.
pub open spec fn guarded(trace: Seq<Access>) -> bool {
    forall|i: int|
        0 <= i < trace.len() && (#[trigger] trace[i]) is Write ==> i > 0 && (trace[i
            - 1] matches Access::Read { address, value } && address == UART_CTRL && !busy(value))
}

/// The writes of two traces laid end to end are the writes of the first
/// followed by those of the second, and so are the bytes transmitted.
pub proof fn lemma_writes_concat(a: Seq<Access>, b: Seq<Access>)
    ensures
        writes(a + b) == writes(a) + writes(b),
        sink(a + b) == sink(a) + sink(b),
    decreases b.len(),
{
    if b.len() > 0 {
        assert((a + b).drop_last() =~= a + b.drop_last());
        lemma_writes_concat(a, b.drop_last());
    }
}

/// A trace that holds reads only writes nothing and transmits nothing.
pub proof fn lemma_reads_write_nothing(trace: Seq<Access>)
    requires
        forall|i: int| 0 <= i < trace.len() ==> (#[trigger] trace[i]) is Read,
    ensures
        writes(trace) == Seq::<(usize, u32)>::empty(),
        sink(trace) == Seq::<u8>::empty(),
    decreases trace.len(),
{
    if trace.len() > 0 {
        lemma_reads_write_nothing(trace.drop_last());
    }
}

/// Laying one trace behind another keeps the accesses on the two registers,
/// and keeps every write behind a clear status, as long as the second trace
/// does not open with a write.
pub proof fn lemma_concat_keeps_order(a: Seq<Access>, b: Seq<Access>)
    requires
        b.len() > 0 ==> b[0] is Read,
    ensures
        on_registers(a) && on_registers(b) ==> on_registers(a + b),
        guarded(a) && guarded(b) ==> guarded(a + b),
{
}

} // verus!
