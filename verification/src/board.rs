use vstd::prelude::*;
use crate::i2c::{BusOp, i2c_transmit_2bytes, transmit_spec};

verus! {

/// Red LED, pin PK6.
pub const LED1: u8 = 0b0100_0000;

/// Green LED, pin PK4.
pub const LED2: u8 = 0x10;

/// Launchpad LED, pin PN0.
pub const LED3: u8 = 0x01;

/// HV PWM output, pin PF0.
pub const HV_PWM: u8 = 0x01;

/// FV PWM output, pin PF2.
pub const FV_PWM: u8 = 0x04;

/// FBV PWM output, pin PG0.
pub const FBV_PWM: u8 = 0x01;

/// I2C module 2 data line, pin PN4.
pub const SDA2: u8 = 0b0001_0000;

/// I2C module 2 clock line, pin PN5.
pub const SCL2: u8 = 0b0010_0000;

/// I2C module 0 data line, pin PB2.
pub const SDA0: u8 = 0b0000_0100;

/// I2C module 0 clock line, pin PB3.
pub const SCL0: u8 = 0b0000_1000;

/// Output pins of port K: both LEDs.
pub const PORT_K_OUTPUTS: u8 = LED1 | LED2;

/// Output pins of port N: `LED3` and the pins of I2C module 2.
pub const PORT_N_OUTPUTS: u8 = LED3 | SDA2 | SCL2;

/// Pins of I2C module 2.
pub const I2C2_PINS: u8 = SDA2 | SCL2;

/// PWM pins of port F.
pub const PORT_F_PWM_PINS: u8 = HV_PWM | FV_PWM;

/// System clock once the PLL runs, in Hz.
pub const SYSCLK_HZ: u32 = 120_000_000;

/// Core clock cycles per microsecond at `SYSCLK_HZ`.
pub const CYCLES_PER_US: u32 = 120;

/// Frequency of the PWM outputs, in Hz.
pub const PWM_FREQ_HZ: u32 = 100_000;

/// PWM period in PWM clock ticks (the PWM clock is the system clock).
pub const PWM_LOAD: u16 = 1200;

/// Baud rate of UART0.
pub const UART_BAUD: u32 = 115200;

/// UART0 baud-rate divisor in 1/64 units, rounded to nearest.
pub const UART_DIV: u32 = (((SYSCLK_HZ * 8) / UART_BAUD) + 1) / 2;

/// SCL frequency of I2C module 2, in Hz.
pub const I2C_FREQ: u32 = 200000;

/// Timer period of I2C module 2 (`I2CMTPR.TPR`) for `I2C_FREQ`.
pub const I2C_DIV: u32 = 29;

/// I2C address of the display.
pub const DISP_I2C_ADDR: u8 = 0b0011_1100;

/// The value of a GPIO data register after driving the pins of `mask` high
/// (`state`) or low, every other pin kept.
pub open spec fn pins_driven(data: u8, mask: u8, state: bool) -> u8 {
    if state {
        data | mask
    } else {
        data & !mask
    }
}

/// New value of a GPIO data register whose pins in `mask` are driven to
/// `state`.
pub fn drive_pins(data: u8, mask: u8, state: bool) -> (r: u8)
    ensures
        r == pins_driven(data, mask, state),
{
    if state {
        data | mask
    } else {
        data & !mask
    }
}

/// New value of the port K data register with the green LED (`LED2`) on or
/// off.
pub fn set_led(data: u8, state: bool) -> (r: u8)
    ensures
        r == pins_driven(data, LED2, state),
{
    drive_pins(data, LED2, state)
}

/// New value of the port K data register with the red LED (`LED1`) on or
/// off.
pub fn set_led1(data: u8, state: bool) -> (r: u8)
    ensures
        r == pins_driven(data, LED1, state),
{
    drive_pins(data, LED1, state)
}

/// New value of the port N data register with `LED3` on or off.
pub fn set_led3(data: u8, state: bool) -> (r: u8)
    ensures
        r == pins_driven(data, LED3, state),
{
    drive_pins(data, LED3, state)
}

/// Driving pins sets exactly those pins to the requested level and leaves
/// every other pin of the port as it was; driving them again changes
/// nothing.
pub proof fn lemma_drive_pins(data: u8, mask: u8, state: bool)
    ensures
        pins_driven(data, mask, state) & mask == (if state {
            mask
        } else {
            0u8
        }),
        pins_driven(data, mask, state) & !mask == data & !mask,
        pins_driven(pins_driven(data, mask, state), mask, state) == pins_driven(
            data,
            mask,
            state,
        ),
{
    if state {
        assert((data | mask) & mask == mask) by (bit_vector);
        assert((data | mask) & !mask == data & !mask) by (bit_vector);
        assert(((data | mask) | mask) == (data | mask)) by (bit_vector);
    } else {
        assert((data & !mask) & mask == 0u8) by (bit_vector);
        assert((data & !mask) & !mask == data & !mask) by (bit_vector);
    }
}

/// Core clock cycles to wait for `us` microseconds.
pub fn delay_cycles(us: u32) -> (cycles: u32)
    requires
        us * CYCLES_PER_US <= u32::MAX,
    ensures
        cycles == us * CYCLES_PER_US,
{
    us * CYCLES_PER_US
}

/// Integer and fractional baud-rate register values (`UARTIBRD.DIVINT`,
/// `UARTFBRD.DIVFRAC`) for a divisor `div` in 1/64 units.
pub fn uart_brd(div: u32) -> (r: (u16, u8))
    requires
        div / 64 <= u16::MAX,
    ensures
        r.0 == div / 64,
        r.1 == div % 64,
{
    ((div / 64) as u16, (div % 64) as u8)
}

/// The clock constants follow from the system clock and the chosen rates:
/// the UART divisor is sysclk/(16 * baud) in 1/64 units, rounded, the I2C
/// timer period is sysclk/(2 * (6 + 4) * SCL) - 1, and the PWM period is
/// sysclk/frequency.
pub proof fn lemma_clock_constants()
    ensures
        UART_DIV == 4167,
        UART_DIV / 64 == 65,
        UART_DIV % 64 == 7,
        I2C_DIV == SYSCLK_HZ as int / (2 * (6 + 4) * I2C_FREQ as int) - 1,
        PWM_LOAD == SYSCLK_HZ / PWM_FREQ_HZ,
        CYCLES_PER_US == SYSCLK_HZ / 1_000_000,
{
    assert(120_000_000int / 4_000_000int == 30) by (nonlinear_arith);
}

/// Plan of one command byte to the display at `slave_addr`: the control
/// byte 0x00 (a command follows) and then `value`.
pub fn lcd_command(value: u8, slave_addr: u8) -> (ops: Vec<BusOp>)
    ensures
        ops@ == transmit_spec(slave_addr, seq![0x00u8, value]),
{
    i2c_transmit_2bytes(0x00, value, slave_addr)
}

} // verus!
