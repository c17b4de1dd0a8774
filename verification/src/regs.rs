//! The register map of the UART and the meaning of its status bits.

use vstd::prelude::*;

verus! {

/// Base address of the UART's register block.
pub const UART_BASE: usize = 0x2000_0000;

/// Address of the 32-bit control/status register. It is only ever read.
pub const UART_CTRL: usize = UART_BASE + 0x0;

/// Address of the 32-bit transmit data register. It is only ever written;
/// its low eight bits carry the byte to transmit.
pub const UART_DATA_WR: usize = UART_BASE + 0x8;

/// Bit of the status register that is set while the transmitter cannot
/// accept a byte.
pub const BUSY: u32 = 0x1;

/// Whether a value read from the status register reports the transmitter
/// as busy. Only bit 0 counts; the other bits are ignored.
pub open spec fn busy(status: u32) -> bool {
    status & BUSY != 0
}

/// Tests the busy bit of a value read from the status register.
pub fn is_busy(status: u32) -> (b: bool)
    ensures
        b == busy(status),
{
    status & BUSY != 0
}

} // verus!
