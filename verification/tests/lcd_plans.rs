use i2c_lcd::board::{lcd_command, DISP_I2C_ADDR};
use i2c_lcd::i2c::{i2c_transmit_2bytes, BusOp};
use i2c_lcd::lcd::{
    disp_clear, disp_cursor_on_off, set_cursor, LCD_init, DISP_ON_OFF_B_POS, DISP_ON_OFF_C_POS,
    DISP_ON_OFF_D_POS, LINE1, LINE2,
};

fn sent(ops: &[BusOp]) -> Vec<u8> {
    ops.iter()
        .filter_map(|op| match op {
            BusOp::PutData(b) => Some(*b),
            _ => None,
        })
        .collect()
}

#[test]
fn cursor_first_line() {
    let mut expected = i2c_transmit_2bytes(0x00, 0x80, DISP_I2C_ADDR);
    expected.push(BusOp::DelayUs(30));
    assert_eq!(set_cursor(LINE1, 0), expected);
    assert_eq!(sent(&set_cursor(LINE1, 19)), vec![0x00, 0x93]);
}

#[test]
fn cursor_second_line() {
    assert_eq!(sent(&set_cursor(LINE2, 0)), vec![0x00, 0xC0]);
    assert_eq!(sent(&set_cursor(LINE2, 5)), vec![0x00, 0xC5]);
    assert_eq!(set_cursor(LINE2, 5).last(), Some(&BusOp::DelayUs(30)));
}

#[test]
fn cursor_outside_display_does_nothing() {
    assert!(set_cursor(LINE1, 20).is_empty());
    assert!(set_cursor(LINE2, 200).is_empty());
    assert!(set_cursor(2, 0).is_empty());
    assert!(set_cursor(255, 3).is_empty());
}

#[test]
fn cursor_cells_have_distinct_addresses() {
    let mut seen = std::collections::HashSet::new();
    for line in [LINE1, LINE2] {
        for pos in 0..20u8 {
            let bytes = sent(&set_cursor(line, pos));
            assert_eq!(bytes.len(), 2);
            assert!(bytes[1] & 0x80 != 0);
            assert!(seen.insert(bytes[1]));
        }
    }
}

#[test]
fn display_on_cursor_off() {
    let d_mask: u8 = 1 << DISP_ON_OFF_D_POS;
    let ops = disp_cursor_on_off(d_mask, 0x00, 0x00);
    assert_eq!(sent(&ops), vec![0x00, 0x0C]);
    assert_eq!(ops.last(), Some(&BusOp::DelayUs(30)));
}

#[test]
fn display_all_flags() {
    let ops = disp_cursor_on_off(
        1 << DISP_ON_OFF_D_POS,
        1 << DISP_ON_OFF_C_POS,
        1 << DISP_ON_OFF_B_POS,
    );
    assert_eq!(sent(&ops), vec![0x00, 0x0F]);
    assert_eq!(sent(&disp_cursor_on_off(0, 0, 0)), vec![0x00, 0x08]);
}

#[test]
fn clear_waits_a_millisecond() {
    let mut expected = i2c_transmit_2bytes(0x00, 0x01, DISP_I2C_ADDR);
    expected.push(BusOp::DelayUs(1000));
    assert_eq!(disp_clear(), expected);
}

#[test]
fn command_is_control_byte_then_value() {
    assert_eq!(lcd_command(0x0C, 0x3C), i2c_transmit_2bytes(0x00, 0x0C, 0x3C));
}

#[test]
fn init_sequence() {
    let ops = LCD_init(DISP_I2C_ADDR);
    assert_eq!(ops[0], BusOp::SetSlaveAddress { addr: DISP_I2C_ADDR, receive: false });
    assert_eq!(ops[1], BusOp::WaitBusIdle);
    assert_eq!(
        sent(&ops),
        vec![0x00, 0x38, 0x39, 0x14, 0x7F, 0x5C, 0x6E, 0x0D, 0x01, 0x06]
    );
    let delays: Vec<u32> = ops
        .iter()
        .filter_map(|op| match op {
            BusOp::DelayUs(us) => Some(*us),
            _ => None,
        })
        .collect();
    assert_eq!(delays, vec![10000, 5000, 50, 50, 50, 50, 50, 2000]);
    assert_eq!(ops[4], BusOp::WaitTransfer);
    assert_eq!(ops[ops.len() - 1], BusOp::WaitTransfer);
    assert_eq!(ops[ops.len() - 2], BusOp::Command(0b0101));
    assert_eq!(ops[3], BusOp::Command(0b0011));
    assert_eq!(ops[6], BusOp::Command(0b0001));
    assert_eq!(ops[8], BusOp::DelayUs(10000));
}

#[test]
fn cursor_last_cell_of_second_line() {
    assert_eq!(sent(&set_cursor(LINE2, 19)), vec![0x00, 0xD3]);
}
