use vstd::prelude::*;
use crate::board::DISP_I2C_ADDR;
use crate::i2c::{
    BusOp, FrameByte, i2c_transmit_2bytes, transmit_spec, write_frame, write_frame_spec,
};

verus! {

/// DDRAM address of the first character of the first line.
#[allow(non_upper_case_globals)]
const line1_base: u8 = 0x00;

/// DDRAM address of the first character of the second line.
#[allow(non_upper_case_globals)]
const line2_base: u8 = 0x40;

/// Index of the first display line.
pub const LINE1: u8 = 0;

/// Index of the second display line.
pub const LINE2: u8 = 1;

/// Bit of the display on/off instruction that turns the display on.
pub const DISP_ON_OFF_D_POS: u8 = 2;

/// Bit of the display on/off instruction that shows the cursor.
pub const DISP_ON_OFF_C_POS: u8 = 1;

/// Bit of the display on/off instruction that makes the cursor blink.
pub const DISP_ON_OFF_B_POS: u8 = 0;

/// Control byte: the byte that follows is an instruction.
pub const CONTROL_COMMAND: u8 = 0x00;

/// Control byte: the byte that follows is character data.
pub const CONTROL_DATA: u8 = 0x40;

/// Characters per display line.
pub const LINE_LEN: u8 = 20;

/// The initialisation frame of the display (3.0 V supply): function set,
/// extended function set, internal oscillator, contrast, power/icon/contrast,
/// follower control, display on with blinking cursor, clear, entry mode; each
/// with the wait the controller needs after it.
pub open spec fn lcd_init_sequence() -> Seq<FrameByte> {
    seq![
        FrameByte { data: 0x00, delay_after_us: 0 },
        FrameByte { data: 0x38, delay_after_us: 10000 },
        FrameByte { data: 0x39, delay_after_us: 5000 },
        FrameByte { data: 0x14, delay_after_us: 50 },
        FrameByte { data: 0x7F, delay_after_us: 50 },
        FrameByte { data: 0x5C, delay_after_us: 50 },
        FrameByte { data: 0x6E, delay_after_us: 50 },
        FrameByte { data: 0x0D, delay_after_us: 50 },
        FrameByte { data: 0x01, delay_after_us: 2000 },
        FrameByte { data: 0x06, delay_after_us: 0 },
    ]
}

/// Plan that initialises the display at `slave_addr`: the whole
/// initialisation sequence in a single write frame.
#[allow(non_snake_case)]
pub fn LCD_init(slave_addr: u8) -> (ops: Vec<BusOp>)
    ensures
        ops@ == write_frame_spec(slave_addr, lcd_init_sequence()),
{
    let mut bytes: Vec<FrameByte> = Vec::new();
    bytes.push(FrameByte { data: CONTROL_COMMAND, delay_after_us: 0 });
    bytes.push(FrameByte { data: 0x38, delay_after_us: 10000 });
    bytes.push(FrameByte { data: 0x39, delay_after_us: 5000 });
    bytes.push(FrameByte { data: 0x14, delay_after_us: 50 });
    bytes.push(FrameByte { data: 0x7F, delay_after_us: 50 });
    bytes.push(FrameByte { data: 0x5C, delay_after_us: 50 });
    bytes.push(FrameByte { data: 0x6E, delay_after_us: 50 });
    bytes.push(FrameByte { data: 0x0D, delay_after_us: 50 });
    bytes.push(FrameByte { data: 0x01, delay_after_us: 2000 });
    bytes.push(FrameByte { data: 0x06, delay_after_us: 0 });
    assert(bytes@ =~= lcd_init_sequence());
    write_frame(slave_addr, &bytes)
}

/// Whether (`line`, `position`) names a character cell of the display.
pub open spec fn valid_cell(line: u8, position: u8) -> bool {
    (line == LINE1 || line == LINE2) && position < LINE_LEN
}

/// DDRAM address of a character cell: the second line starts at 0x40.
pub open spec fn ddram_address(line: u8, position: u8) -> int {
    0x40 * line + position
}

/// Plan that moves the cursor to `position` of `line`: the "set DDRAM
/// address" instruction (0x80 + address) and a 30 us wait; nothing when the
/// cell does not exist.
pub open spec fn cursor_ops(line: u8, position: u8) -> Seq<BusOp> {
    if valid_cell(line, position) {
        transmit_spec(
            DISP_I2C_ADDR,
            seq![CONTROL_COMMAND, (0x80 + ddram_address(line, position)) as u8],
        ).push(BusOp::DelayUs(30))
    } else {
        Seq::empty()
    }
}

/// Plan that moves the cursor of the display to `position` of `line`.
pub fn set_cursor(line: u8, position: u8) -> (ops: Vec<BusOp>)
    ensures
        ops@ == cursor_ops(line, position),
{
    if line == LINE1 && position < LINE_LEN {
        assert(0x80u8 | 0x00u8 | position == 0x80 + position) by (bit_vector)
            requires
                position < 20,
        ;
        let mut ops = i2c_transmit_2bytes(
            CONTROL_COMMAND,
            0x80 | line1_base | position,
            DISP_I2C_ADDR,
        );
        ops.push(BusOp::DelayUs(30));
        ops
    } else if line == LINE2 && position < LINE_LEN {
        assert(0x80u8 | 0x40u8 | position == 0xC0 + position) by (bit_vector)
            requires
                position < 20,
        ;
        let mut ops = i2c_transmit_2bytes(
            CONTROL_COMMAND,
            0x80 | line2_base | position,
            DISP_I2C_ADDR,
        );
        ops.push(BusOp::DelayUs(30));
        ops
    } else {
        Vec::new()
    }
}

/// Every character cell has an address of its own, and the cursor
/// instruction carries it below the instruction bit 0x80; the first line
/// starts at address 0x00, the second at 0x40, and the cells of a line have
/// consecutive addresses.
pub proof fn lemma_cursor_addresses(l1: u8, p1: u8, l2: u8, p2: u8)
    requires
        valid_cell(l1, p1),
        valid_cell(l2, p2),
    ensures
        0 <= ddram_address(l1, p1) < 0x80,
        (ddram_address(l1, p1) == ddram_address(l2, p2)) <==> (l1 == l2 && p1 == p2),
        ddram_address(LINE1, 0) == 0x00,
        ddram_address(LINE2, 0) == 0x40,
        ddram_address(l1, p1) == ddram_address(l1, 0) + p1,
{
}

/// Plan that switches display, cursor and cursor blinking: the instruction
/// 0x08 with the given flag masks, then a 30 us wait.
pub fn disp_cursor_on_off(d_mask: u8, c_mask: u8, b_mask: u8) -> (ops: Vec<BusOp>)
    ensures
        ops@ == transmit_spec(
            DISP_I2C_ADDR,
            seq![CONTROL_COMMAND, 0x08u8 | d_mask | c_mask | b_mask],
        ).push(BusOp::DelayUs(30)),
{
    let mut ops = i2c_transmit_2bytes(
        CONTROL_COMMAND,
        0x08 | d_mask | c_mask | b_mask,
        DISP_I2C_ADDR,
    );
    ops.push(BusOp::DelayUs(30));
    ops
}

/// The mask of one flag of the display on/off instruction.
pub open spec fn flag_mask(on: bool, pos: u8) -> u8 {
    if on {
        (1u8 << pos) as u8
    } else {
        0u8
    }
}

/// With the flag masks at their bit positions, the display on/off
/// instruction is 0b0000_1DCB: display, cursor and blink in bits 2, 1, 0.
pub proof fn lemma_display_control_flags(d: bool, c: bool, b: bool)
    ensures
        (0x08u8 | flag_mask(d, DISP_ON_OFF_D_POS) | flag_mask(c, DISP_ON_OFF_C_POS) | flag_mask(
            b,
            DISP_ON_OFF_B_POS,
        )) == 8 + (if d {
            4int
        } else {
            0
        }) + (if c {
            2int
        } else {
            0
        }) + (if b {
            1int
        } else {
            0
        }),
{
    assert(1u8 << 2u8 == 4u8) by (bit_vector);
    assert(1u8 << 1u8 == 2u8) by (bit_vector);
    assert(1u8 << 0u8 == 1u8) by (bit_vector);
    let dm: u8 = if d { 4 } else { 0 };
    let cm: u8 = if c { 2 } else { 0 };
    let bm: u8 = if b { 1 } else { 0 };
    assert((dm == 0 || dm == 4) && (cm == 0 || cm == 2) && (bm == 0 || bm == 1) ==> (0x08u8 | dm
        | cm | bm) == 8 + dm + cm + bm) by (bit_vector);
}

/// Plan that clears the display: the clear instruction 0x01 and the 1 ms
/// the controller needs for it.
pub fn disp_clear() -> (ops: Vec<BusOp>)
    ensures
        ops@ == transmit_spec(DISP_I2C_ADDR, seq![CONTROL_COMMAND, 0x01u8]).push(
            BusOp::DelayUs(1000),
        ),
{
    let mut ops = i2c_transmit_2bytes(CONTROL_COMMAND, 0x01, DISP_I2C_ADDR);
    ops.push(BusOp::DelayUs(1000));
    ops
}

} // verus!
