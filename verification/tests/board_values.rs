use i2c_lcd::board::{
    delay_cycles, drive_pins, set_led, set_led1, set_led3, uart_brd, I2C_DIV, LED1, LED2, LED3,
    PWM_LOAD, UART_DIV,
};

#[test]
fn green_led_on_and_off() {
    assert_eq!(set_led(0x00, true), 0x10);
    assert_eq!(set_led(0xFF, false), 0xEF);
    assert_eq!(set_led(0x41, true), 0x51);
    assert_eq!(set_led(0x51, false), 0x41);
}

#[test]
fn red_led_and_led3() {
    assert_eq!(set_led1(0x10, true), 0x50);
    assert_eq!(set_led1(0x50, false), 0x10);
    assert_eq!(set_led3(0x30, true), 0x31);
    assert_eq!(set_led3(0x31, false), 0x30);
}

#[test]
fn driving_pins_keeps_other_pins() {
    for data in 0..=255u8 {
        for mask in [LED1, LED2, LED3, 0x0F, 0xA5] {
            for state in [false, true] {
                let r = drive_pins(data, mask, state);
                assert_eq!(r & mask, if state { mask } else { 0 });
                assert_eq!(r & !mask, data & !mask);
                assert_eq!(drive_pins(r, mask, state), r);
            }
        }
    }
}

#[test]
fn delay_cycles_at_120_mhz() {
    assert_eq!(delay_cycles(0), 0);
    assert_eq!(delay_cycles(30), 3600);
    assert_eq!(delay_cycles(10000), 1_200_000);
    assert_eq!(delay_cycles(u32::MAX / 120), (u32::MAX / 120) * 120);
}

#[test]
fn clock_constants() {
    assert_eq!(UART_DIV, 4167);
    assert_eq!(uart_brd(UART_DIV), (65, 7));
    assert_eq!(I2C_DIV, 29);
    assert_eq!(PWM_LOAD, 1200);
}

#[test]
fn uart_brd_splits_divisor() {
    assert_eq!(uart_brd(0), (0, 0));
    assert_eq!(uart_brd(63), (0, 63));
    assert_eq!(uart_brd(64), (1, 0));
    assert_eq!(uart_brd(65535 * 64 + 63), (65535, 63));
}
