use uart_hello::access::Access;
use uart_hello::firmware::{boot, start, Image, GREETING};
use uart_hello::regs::{UART_CTRL, UART_DATA_WR};
use uart_hello::sim::SimUart;
use uart_hello::transmitter::{Reply, Request};

#[test]
fn greeting_is_the_fixed_line() {
    assert_eq!(GREETING, "UART hello from Rust!\r\n");
    assert_eq!(Image::Greeting.text(), "UART hello from Rust!\r\n");
    assert_eq!(Image::Unfinished.text(), "");
    assert_eq!(
        GREETING.as_bytes(),
        &[
            0x55, 0x41, 0x52, 0x54, 0x20, 0x68, 0x65, 0x6c, 0x6c, 0x6f, 0x20, 0x66, 0x72, 0x6f,
            0x6d, 0x20, 0x52, 0x75, 0x73, 0x74, 0x21, 0x0d, 0x0a,
        ]
    );
}

#[test]
fn startup_on_a_ready_device_sends_the_greeting_and_idles() {
    let mut uart = SimUart::new(&[]);
    let mut idle = start(&mut uart, Image::Greeting);
    assert_eq!(uart.transmitted(), b"UART hello from Rust!\r\n".to_vec());

    let mut expected = Vec::new();
    for byte in "UART hello from Rust!\r\n".bytes() {
        expected.push(Access::Read { address: UART_CTRL, value: 0 });
        expected.push(Access::Write { address: UART_DATA_WR, value: byte as u32 });
    }
    assert_eq!(uart.trace(), &expected);

    assert_eq!(idle.request(), Request::Idle);
    for round in 0..10_000u32 {
        idle = idle.step(Reply::Value(round));
        assert_eq!(idle.request(), Request::Idle);
        idle = idle.step(Reply::Written);
        assert_eq!(idle.request(), Request::Idle);
    }
    assert_eq!(uart.trace(), &expected);
}

#[test]
fn startup_with_busy_bit_clear_but_other_bits_set() {
    let script = vec![0xffff_fffeu32; 23];
    let mut uart = SimUart::new(&script);
    start(&mut uart, Image::Greeting);
    assert_eq!(uart.transmitted(), GREETING.as_bytes().to_vec());
    assert_eq!(uart.trace().len(), 2 * GREETING.len());
}

#[test]
fn startup_on_a_slow_device_still_sends_the_greeting() {
    let mut script = Vec::new();
    for i in 0..23u32 {
        for _ in 0..(i % 4) {
            script.push(1);
        }
        script.push(0);
    }
    let mut uart = SimUart::new(&script);
    start(&mut uart, Image::Greeting);
    assert_eq!(uart.transmitted(), GREETING.as_bytes().to_vec());
    assert_eq!(uart.trace().len(), script.len() + GREETING.len());
}

#[test]
fn unfinished_image_makes_no_access() {
    let mut uart = SimUart::new(&[0, 1, 0]);
    let mut idle = start(&mut uart, Image::Unfinished);
    assert!(uart.trace().is_empty());
    assert!(uart.transmitted().is_empty());
    assert_eq!(idle.request(), Request::Idle);
    for round in 0..10_000u32 {
        idle = idle.step(Reply::Value(round));
        assert_eq!(idle.request(), Request::Idle);
        idle = idle.step(Reply::Written);
        assert_eq!(idle.request(), Request::Idle);
    }
    assert_eq!(uart.read(UART_CTRL), 0);
    assert_eq!(uart.read(UART_CTRL), 1);
}

#[test]
fn boot_leaves_the_greeting_unsent_and_the_unfinished_image_idle() {
    assert_eq!(boot(Image::Greeting).request(), Request::Read { address: UART_CTRL });
    assert_eq!(boot(Image::Unfinished).request(), Request::Idle);
    let tx = boot(Image::Greeting).step(Reply::Value(0));
    assert_eq!(tx.request(), Request::Write { address: UART_DATA_WR, value: 0x55 });
}

#[test]
fn following_the_booted_transmitter_by_hand_matches_start() {
    let script = [1, 0, 0, 1, 1, 0];
    let mut by_start = SimUart::new(&script);
    start(&mut by_start, Image::Greeting);

    let mut by_hand = SimUart::new(&script);
    let mut tx = boot(Image::Greeting);
    loop {
        let reply = match tx.request() {
            Request::Read { address } => Reply::Value(by_hand.read(address)),
            Request::Write { address, value } => {
                by_hand.write(address, value);
                Reply::Written
            }
            Request::Idle => break,
        };
        tx = tx.step(reply);
    }
    assert_eq!(by_start.trace(), by_hand.trace());
}
