use uart_hello::regs::{UART_CTRL, UART_DATA_WR};
use uart_hello::transmitter::{Reply, Request, Transmitter};

const POLL: Request = Request::Read { address: UART_CTRL };

fn send(byte: u8) -> Request {
    Request::Write { address: UART_DATA_WR, value: byte as u32 }
}

#[test]
fn transmitter_polls_then_sends_then_polls_again() {
    let tx = Transmitter::new(b"ok");
    assert_eq!(tx.request(), POLL);
    let tx = tx.step(Reply::Value(1));
    assert_eq!(tx.request(), POLL);
    let tx = tx.step(Reply::Value(0xffff_ffff));
    assert_eq!(tx.request(), POLL);
    let tx = tx.step(Reply::Value(0));
    assert_eq!(tx.request(), send(b'o'));
    let tx = tx.step(Reply::Written);
    assert_eq!(tx.request(), POLL);
    let tx = tx.step(Reply::Value(0xffff_fffe));
    assert_eq!(tx.request(), send(b'k'));
    let tx = tx.step(Reply::Written);
    assert_eq!(tx.request(), Request::Idle);
}

#[test]
fn transmitter_of_an_empty_text_idles_at_once() {
    let tx = Transmitter::new(b"");
    assert_eq!(tx.request(), Request::Idle);
}

#[test]
fn transmitter_ignores_replies_it_did_not_ask_for() {
    let tx = Transmitter::new(b"q");
    let tx = tx.step(Reply::Written);
    assert_eq!(tx.request(), POLL);
    let tx = tx.step(Reply::Value(0));
    assert_eq!(tx.request(), send(b'q'));
    let tx = tx.step(Reply::Value(1));
    assert_eq!(tx.request(), send(b'q'));
    let tx = tx.step(Reply::Value(0));
    assert_eq!(tx.request(), send(b'q'));
    let tx = tx.step(Reply::Written);
    assert_eq!(tx.request(), Request::Idle);
}

#[test]
fn transmitter_stays_idle_whatever_it_is_told() {
    let mut tx = Transmitter::new(b"z");
    tx = tx.step(Reply::Value(0));
    tx = tx.step(Reply::Written);
    assert_eq!(tx.request(), Request::Idle);
    for round in 0..10_000u32 {
        tx = tx.step(Reply::Value(round));
        assert_eq!(tx.request(), Request::Idle);
        tx = tx.step(Reply::Written);
        assert_eq!(tx.request(), Request::Idle);
    }
}

#[test]
fn transmitter_never_writes_while_the_device_stays_busy() {
    let mut tx = Transmitter::new(b"never");
    for _ in 0..10_000 {
        assert_eq!(tx.request(), POLL);
        tx = tx.step(Reply::Value(1));
    }
    assert_eq!(tx.request(), POLL);
}

#[test]
fn transmitter_sends_every_byte_value_zero_extended() {
    for byte in 0..=255u8 {
        let text = [byte];
        let tx = Transmitter::new(&text).step(Reply::Value(0));
        assert_eq!(
            tx.request(),
            Request::Write { address: 0x2000_0008, value: byte as u32 }
        );
    }
}
