use i2c_lcd::board::DISP_I2C_ADDR;
use i2c_lcd::console::{format_clock, UartOp, I2C2, UART0};
use i2c_lcd::i2c::{i2c_transmit_2bytes, BusOp};

fn sent(ops: &[BusOp]) -> Vec<u8> {
    ops.iter()
        .filter_map(|op| match op {
            BusOp::PutData(b) => Some(*b),
            _ => None,
        })
        .collect()
}

#[test]
fn clock_text_is_zero_padded() {
    assert_eq!(format_clock(0, 0, 0), b" 00:00:00\r".to_vec());
    assert_eq!(format_clock(1, 2, 3), b" 01:02:03\r".to_vec());
    assert_eq!(format_clock(12, 34, 58), b" 12:34:58\r".to_vec());
    assert_eq!(format_clock(9, 10, 11), b" 09:10:11\r".to_vec());
}

#[test]
fn clock_text_matches_std_format() {
    for (h, m, s) in [(0u32, 0u32, 0u32), (7, 58, 9), (99, 5, 40), (100, 1, 2), (123456, 58, 58)] {
        let expected = format!(" {:02}:{:02}:{:02}\r", h, m, s);
        assert_eq!(format_clock(h, m, s), expected.into_bytes());
    }
    let expected = format!(" {:02}:{:02}:{:02}\r", u32::MAX, u32::MAX, 0);
    assert_eq!(format_clock(u32::MAX, u32::MAX, 0), expected.into_bytes());
}

#[test]
fn display_text_is_one_frame_per_character() {
    let ops = I2C2.write_str("test");
    let mut expected = Vec::new();
    for c in b"test" {
        expected.extend(i2c_transmit_2bytes(0x40, *c, DISP_I2C_ADDR));
    }
    assert_eq!(ops, expected);
    assert_eq!(sent(&ops), vec![0x40, b't', 0x40, b'e', 0x40, b's', 0x40, b't']);
}

#[test]
fn display_text_empty() {
    assert!(I2C2.write_str("").is_empty());
    assert!(I2C2.write_bytes(&[]).is_empty());
}

#[test]
fn display_text_utf8_bytes() {
    assert_eq!(sent(&I2C2.write_str("é")), vec![0x40, 0xC3, 0x40, 0xA9]);
}

#[test]
fn uart_text() {
    assert_eq!(
        UART0.write_str("ok"),
        vec![
            UartOp::WaitTxFifoNotFull,
            UartOp::WriteData(b'o'),
            UartOp::WaitTxFifoNotFull,
            UartOp::WriteData(b'k'),
        ]
    );
    assert!(UART0.write_str("").is_empty());
}
