use uart_hello::access::Access;
use uart_hello::regs::{UART_CTRL, UART_DATA_WR};
use uart_hello::sim::SimUart;

#[test]
fn new_device_has_made_no_access() {
    let uart = SimUart::new(&[1, 2, 3]);
    assert!(uart.trace().is_empty());
    assert!(uart.transmitted().is_empty());
}

#[test]
fn status_reads_follow_the_script_then_stay_ready() {
    let mut uart = SimUart::new(&[7, 0, 0xdead_beef]);
    assert_eq!(uart.read(UART_CTRL), 7);
    assert_eq!(uart.read(UART_CTRL), 0);
    assert_eq!(uart.read(UART_CTRL), 0xdead_beef);
    assert_eq!(uart.read(UART_CTRL), 0);
    assert_eq!(uart.read(UART_CTRL), 0);
    assert_eq!(
        uart.trace(),
        &vec![
            Access::Read { address: UART_CTRL, value: 7 },
            Access::Read { address: UART_CTRL, value: 0 },
            Access::Read { address: UART_CTRL, value: 0xdead_beef },
            Access::Read { address: UART_CTRL, value: 0 },
            Access::Read { address: UART_CTRL, value: 0 },
        ]
    );
}

#[test]
fn reads_elsewhere_return_zero_and_leave_the_script() {
    let mut uart = SimUart::new(&[9]);
    assert_eq!(uart.read(UART_DATA_WR), 0);
    assert_eq!(uart.read(0x1000), 0);
    assert_eq!(uart.read(UART_CTRL), 9);
    assert_eq!(
        uart.trace(),
        &vec![
            Access::Read { address: UART_DATA_WR, value: 0 },
            Access::Read { address: 0x1000, value: 0 },
            Access::Read { address: UART_CTRL, value: 9 },
        ]
    );
}

#[test]
fn writes_are_recorded_and_leave_the_script() {
    let mut uart = SimUart::new(&[5]);
    uart.write(UART_DATA_WR, 0x41);
    uart.write(UART_CTRL, 0xffff_ffff);
    assert_eq!(uart.read(UART_CTRL), 5);
    assert_eq!(
        uart.trace(),
        &vec![
            Access::Write { address: UART_DATA_WR, value: 0x41 },
            Access::Write { address: UART_CTRL, value: 0xffff_ffff },
            Access::Read { address: UART_CTRL, value: 5 },
        ]
    );
}

#[test]
fn sink_takes_the_low_byte_of_data_register_writes_only() {
    let mut uart = SimUart::new(&[]);
    uart.write(UART_DATA_WR, 0x0000_0041);
    uart.write(UART_DATA_WR, 0x1234_5678);
    uart.write(UART_CTRL, 0x0000_0099);
    uart.write(0x2000_0004, 0x0000_0077);
    uart.read(UART_CTRL);
    uart.write(UART_DATA_WR, 0xffff_ff00);
    assert_eq!(uart.transmitted(), vec![0x41, 0x78, 0x00]);
}
