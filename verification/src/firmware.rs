//! The two firmware images and what each does once its stack is set up.

use vstd::prelude::*;
use vstd::string::StringSliceAdditionalSpecFns;
use crate::access::{guarded, lemma_concat_keeps_order, lemma_writes_concat, on_registers, sink};
use crate::protocol::{after_bytes, lemma_text_trace, text_trace};
use crate::sim::SimUart;
use crate::transmitter::{lemma_idle_is_final, Reply, Transmitter, TxView};
use crate::uart::transmit;

verus! {

/// The text that the finished image sends: one line, ended by carriage
/// return and line feed.
pub const GREETING: &'static str = "UART hello from Rust!\r\n";

/// The bytes of [`GREETING`], as they go out on the line.
pub open spec fn greeting_bytes() -> Seq<u8> {
    seq![
        0x55u8, 0x41u8, 0x52u8, 0x54u8, 0x20u8,
        0x68u8, 0x65u8, 0x6cu8, 0x6cu8, 0x6fu8, 0x20u8,
        0x66u8, 0x72u8, 0x6fu8, 0x6du8, 0x20u8,
        0x52u8, 0x75u8, 0x73u8, 0x74u8, 0x21u8,
        0x0du8, 0x0au8,
    ]
}

/// The greeting is plain ASCII, so each of its characters goes out as one
/// byte.
pub proof fn lemma_greeting_bytes()
    ensures
        GREETING.spec_bytes() == greeting_bytes(),
{
    reveal_strlit("UART hello from Rust!\r\n");
    vstd::utf8::is_ascii_chars_encode_utf8(GREETING@);
}

/// Which of the two images runs.
#[derive(Clone, Copy, Debug, PartialEq, Eq, Structural)]
pub enum Image {
    /// The finished image: it sends [`GREETING`] once and then idles.
    Greeting,
    /// The unfinished image: it idles at once and never touches the UART.
    Unfinished,
}

impl Image {
    /// The bytes that the image sends before it idles.
    pub open spec fn payload(self) -> Seq<u8> {
        match self {
            Image::Greeting => greeting_bytes(),
            Image::Unfinished => Seq::empty(),
        }
    }

    /// The text that the image sends before it idles.
    pub fn text(self) -> (text: &'static str)
        ensures
            text.spec_bytes() == self.payload(),
    {
        match self {
            Image::Greeting => {
                proof {
                    lemma_greeting_bytes();
                }
                GREETING
            },
            Image::Unfinished => {
                proof {
                    reveal_strlit("");
                    vstd::utf8::is_ascii_chars_encode_utf8(""@);
                }
                ""
            },
        }
    }
}

/// Once an image has sent its payload it idles for good: whatever it is told
/// from then on, its transmitter stays as it is and never asks for a register
/// again.
pub proof fn lemma_image_idles_for_good(image: Image, replies: Seq<Reply>)
    ensures
        TxView::start(image.payload()).finished().request() is Idle,
        TxView::start(image.payload()).finished().run(replies) == TxView::start(
            image.payload(),
        ).finished(),
{
    lemma_idle_is_final(TxView::start(image.payload()).finished(), replies);
}

/// The unfinished image never asks for a register: not at the start, and not
/// after any run, however long, whatever it is told.
pub proof fn lemma_unfinished_never_asks(replies: Seq<Reply>)
    ensures
        TxView::start(Image::Unfinished.payload()).request() is Idle,
        TxView::start(Image::Unfinished.payload()).run(replies).request() is Idle,
{
    lemma_idle_is_final(TxView::start(Image::Unfinished.payload()), replies);
}

/// The transmitter as the image leaves it when its setup is done: nothing of
/// the payload is sent yet. Whoever performs its requests from here on, for
/// as long as the machine runs, does all that the image does.
///
/// The unfinished image idles from the start, so it never asks for a
/// register.
pub fn boot(image: Image) -> (tx: Transmitter<'static>)
    ensures
        tx@ == TxView::start(image.payload()),
        image is Unfinished ==> tx@.request() is Idle,
{
    Transmitter::new(image.text().as_bytes())
}

/// Runs the image on the simulated UART from the end of its setup until it
/// idles, and returns the transmitter in that idle state.
///
/// The finished image sends its greeting, byte by byte, and then idles. The
/// unfinished image idles at once: it makes no access at all.
pub fn start(uart: &mut SimUart, image: Image) -> (idle: Transmitter<'static>)
    ensures
        final(uart)@.trace == old(uart)@.trace + text_trace(old(uart)@.pending, image.payload()),
        final(uart)@.pending == after_bytes(old(uart)@.pending, image.payload().len()),
        image is Unfinished ==> final(uart)@ == old(uart)@,
        on_registers(old(uart)@.trace) ==> on_registers(final(uart)@.trace),
        guarded(old(uart)@.trace) ==> guarded(final(uart)@.trace),
        sink(final(uart)@.trace) == sink(old(uart)@.trace) + image.payload(),
        idle@ == TxView::start(image.payload()).finished(),
        idle@.request() is Idle,
{
    let tx = boot(image);
    proof {
        let script = uart@.pending;
        assert(tx@.text.skip(0) =~= image.payload());
        lemma_text_trace(script, image.payload());
        lemma_writes_concat(uart@.trace, text_trace(script, image.payload()));
        lemma_concat_keeps_order(uart@.trace, text_trace(script, image.payload()));
    }
    transmit(uart, tx)
}

} // verus!
