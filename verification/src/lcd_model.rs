use vstd::prelude::*;
use crate::board::DISP_I2C_ADDR;
use crate::console::display_write_ops;
use crate::i2c::{
    BusOp, FrameByte, byte_ops, command_for, frame_body, frame_data, lemma_transmit2_steps, transmit_spec,
    write_frame_spec,
};
use crate::lcd::{
    CONTROL_COMMAND, CONTROL_DATA, cursor_ops, ddram_address, lcd_init_sequence, valid_cell,
};

verus! {

/// What the display controller holds that the bus changes: its display
/// data RAM, indexed by DDRAM address; its address counter; the entry mode
/// (whether the counter moves up or down after a data byte); which
/// instruction table is selected (the extended one after a function set with
/// IS = 1); and whether data bytes go to the character generator RAM rather
/// than the DDRAM.
///
/// The address counter is kept as a plain number: the jump from the end of
/// one line to the start of the next (0x27 to 0x40 in two-line mode) is not
/// modelled, nor is the content of the character generator RAM or what the
/// display-only instructions (display on/off, display shift, contrast,
/// power, follower, oscillator) do to the picture.
pub struct LcdState {
    pub ddram: Seq<u8>,
    pub address: int,
    pub increment: bool,
    pub extended: bool,
    pub cgram: bool,
}

/// The display as seen from the bus: its controller state, whether the
/// current frame is addressed to it as a write, and the control byte of the
/// current frame once it has arrived.
pub struct LcdBus {
    pub lcd: LcdState,
    pub listening: bool,
    pub control: Option<u8>,
}

/// Number of DDRAM addresses of the controller.
pub open spec fn ddram_size() -> int {
    0x80
}

/// Character code of a blank cell.
pub open spec fn blank() -> u8 {
    0x20
}

/// The "clear display" instruction.
pub open spec fn clear_display() -> u8 {
    0x01
}

/// A DDRAM with every cell blank.
pub open spec fn blank_ddram() -> Seq<u8> {
    Seq::new(ddram_size() as nat, |i: int| blank())
}

/// The controller after "clear display": every cell blank, the address
/// counter at DDRAM address 0, and the entry mode set to increment.
pub open spec fn cleared(s: LcdState) -> LcdState {
    LcdState {
        ddram: blank_ddram(),
        address: 0,
        increment: true,
        extended: s.extended,
        cgram: false,
    }
}

/// The effect of an instruction byte on the controller:
/// - 0x01 clear display;
/// - 0x02, 0x03 return home: DDRAM address 0;
/// - 0x04 to 0x07 entry mode: the counter counts up when bit 1 is set;
/// - 0x08 to 0x0F display on/off: no change here;
/// - 0x10 to 0x1F: in the basic table a cursor move (0x10 to 0x17; left
///   below 0x14, right from 0x14) or a display shift (0x18 to 0x1F, no change
///   here); in the extended table bias and oscillator settings (no change
///   here);
/// - 0x20 to 0x3F function set: bit 0 selects the instruction table;
/// - 0x40 to 0x7F: in the basic table "set CGRAM address", after which data
///   goes to the character generator RAM; in the extended table icon,
///   power, follower and contrast settings (no change here);
/// - 0x80 to 0xFF set DDRAM address.
pub open spec fn instruction(s: LcdState, value: u8) -> LcdState {
    if value == clear_display() {
        cleared(s)
    } else if value == 0x02 || value == 0x03 {
        LcdState { address: 0, cgram: false, ..s }
    } else if 0x04 <= value < 0x08 {
        LcdState { increment: value >= 0x06, ..s }
    } else if 0x10 <= value < 0x18 && !s.extended {
        LcdState {
            address: if value >= 0x14 {
                s.address + 1
            } else {
                s.address - 1
            },
            ..s
        }
    } else if 0x20 <= value < 0x40 {
        LcdState { extended: value % 2 == 1, ..s }
    } else if 0x40 <= value < 0x80 && !s.extended {
        LcdState { cgram: true, ..s }
    } else if value >= 0x80 {
        LcdState { address: value - 0x80, cgram: false, ..s }
    } else {
        s
    }
}

/// The effect of a data byte: when the counter points into the DDRAM, the
/// byte is stored at the counter's cell and the counter moves on in the
/// entry mode's direction; character generator data is not modelled.
pub open spec fn write_data(s: LcdState, value: u8) -> LcdState {
    if s.cgram {
        s
    } else {
        LcdState {
            ddram: if 0 <= s.address < s.ddram.len() {
                s.ddram.update(s.address, value)
            } else {
                s.ddram
            },
            address: if s.increment {
                s.address + 1
            } else {
                s.address - 1
            },
            ..s
        }
    }
}

/// The effect of one bus step on the display: a write frame to the
/// display's address opens it; its first byte is the control byte, and every
/// later byte is an instruction (control 0x00) or character data (control
/// 0x40).
pub open spec fn bus_step(b: LcdBus, op: BusOp) -> LcdBus {
    match op {
        BusOp::SetSlaveAddress { addr, receive } => LcdBus {
            lcd: b.lcd,
            listening: addr == DISP_I2C_ADDR && !receive,
            control: None,
        },
        BusOp::PutData(v) => if !b.listening {
            b
        } else {
            match b.control {
                None => LcdBus { lcd: b.lcd, listening: b.listening, control: Some(v) },
                Some(c) => if c == CONTROL_COMMAND {
                    LcdBus { lcd: instruction(b.lcd, v), listening: b.listening, control: b.control }
                } else if c == CONTROL_DATA {
                    LcdBus { lcd: write_data(b.lcd, v), listening: b.listening, control: b.control }
                } else {
                    b
                },
            }
        },
        _ => b,
    }
}

/// The display after a whole plan.
pub open spec fn run_bus(b: LcdBus, ops: Seq<BusOp>) -> LcdBus
    decreases ops.len(),
{
    if ops.len() == 0 {
        b
    } else {
        bus_step(run_bus(b, ops.drop_last()), ops.last())
    }
}

/// Running two plans one after the other is running their concatenation.
pub proof fn lemma_run_bus_concat(b: LcdBus, x: Seq<BusOp>, y: Seq<BusOp>)
    ensures
        run_bus(b, x + y) == run_bus(run_bus(b, x), y),
    decreases y.len(),
{
    if y.len() == 0 {
        assert(x + y =~= x);
    } else {
        lemma_run_bus_concat(b, x, y.drop_last());
        assert((x + y).drop_last() =~= x + y.drop_last());
        assert((x + y).last() == y.last());
    }
}

/// The effect of a byte under a control byte.
pub open spec fn apply_byte(s: LcdState, control: u8, value: u8) -> LcdState {
    if control == CONTROL_COMMAND {
        instruction(s, value)
    } else if control == CONTROL_DATA {
        write_data(s, value)
    } else {
        s
    }
}

/// A two-byte frame to the display applies its second byte under its first.
pub proof fn lemma_run_frame2(b: LcdBus, control: u8, value: u8)
    ensures
        run_bus(b, transmit_spec(DISP_I2C_ADDR, seq![control, value])) == (LcdBus {
            lcd: apply_byte(b.lcd, control, value),
            listening: true,
            control: Some(control),
        }),
{
    lemma_transmit2_steps(DISP_I2C_ADDR, control, value);
    let t = seq![
        BusOp::SetSlaveAddress { addr: DISP_I2C_ADDR, receive: false },
        BusOp::WaitBusIdle,
        BusOp::PutData(control),
        BusOp::Command(0b0000_0011u8),
        BusOp::WaitTransfer,
        BusOp::PutData(value),
        BusOp::Command(0b0000_0101u8),
        BusOp::WaitTransfer,
    ];
    reveal_with_fuel(run_bus, 9);
    assert(t.drop_last() =~= t.subrange(0, 7));
    assert(t.subrange(0, 7).drop_last() =~= t.subrange(0, 6));
    assert(t.subrange(0, 6).drop_last() =~= t.subrange(0, 5));
    assert(t.subrange(0, 5).drop_last() =~= t.subrange(0, 4));
    assert(t.subrange(0, 4).drop_last() =~= t.subrange(0, 3));
    assert(t.subrange(0, 3).drop_last() =~= t.subrange(0, 2));
    assert(t.subrange(0, 2).drop_last() =~= t.subrange(0, 1));
    assert(t.subrange(0, 1).drop_last() =~= Seq::<BusOp>::empty());
}

/// A step that puts nothing on the bus leaves the display as it is.
pub proof fn lemma_run_bus_push_delay(b: LcdBus, ops: Seq<BusOp>, us: u32)
    ensures
        run_bus(b, ops.push(BusOp::DelayUs(us))) == run_bus(b, ops),
{
    assert(ops.push(BusOp::DelayUs(us)).drop_last() =~= ops);
}

/// Clearing the display blanks every cell, homes the address counter and
/// sets the entry mode to increment, whatever the display held before; so
/// clearing it twice leaves it as clearing it once.
pub proof fn lemma_disp_clear_idempotent(b: LcdBus)
    ensures
        run_bus(
            b,
            transmit_spec(DISP_I2C_ADDR, seq![CONTROL_COMMAND, 0x01u8]).push(BusOp::DelayUs(1000)),
        ).lcd == cleared(b.lcd),
        run_bus(
            run_bus(
                b,
                transmit_spec(DISP_I2C_ADDR, seq![CONTROL_COMMAND, 0x01u8]).push(
                    BusOp::DelayUs(1000),
                ),
            ),
            transmit_spec(DISP_I2C_ADDR, seq![CONTROL_COMMAND, 0x01u8]).push(BusOp::DelayUs(1000)),
        ).lcd == run_bus(
            b,
            transmit_spec(DISP_I2C_ADDR, seq![CONTROL_COMMAND, 0x01u8]).push(BusOp::DelayUs(1000)),
        ).lcd,
{
    let frame = transmit_spec(DISP_I2C_ADDR, seq![CONTROL_COMMAND, 0x01u8]);
    lemma_run_bus_push_delay(b, frame, 1000);
    lemma_run_frame2(b, CONTROL_COMMAND, 0x01u8);
    let once = run_bus(b, frame.push(BusOp::DelayUs(1000)));
    lemma_run_bus_push_delay(once, frame, 1000);
    lemma_run_frame2(once, CONTROL_COMMAND, 0x01u8);
}

/// Moving the cursor to a cell points the address counter at that cell's
/// DDRAM address and leaves the DDRAM and the modes as they were; for a cell that does not
/// exist nothing changes.
pub proof fn lemma_set_cursor_moves_address(b: LcdBus, line: u8, position: u8)
    ensures
        valid_cell(line, position) ==> run_bus(b, cursor_ops(line, position)).lcd == (LcdState {
            address: ddram_address(line, position),
            cgram: false,
            ..b.lcd
        }),
        !valid_cell(line, position) ==> run_bus(b, cursor_ops(line, position)) == b,
{
    if valid_cell(line, position) {
        let value = (0x80 + ddram_address(line, position)) as u8;
        let frame = transmit_spec(DISP_I2C_ADDR, seq![CONTROL_COMMAND, value]);
        lemma_run_bus_push_delay(b, frame, 30);
        lemma_run_frame2(b, CONTROL_COMMAND, value);
    }
}

/// The controller after character data `bytes`, one after the other.
pub open spec fn write_text(s: LcdState, bytes: Seq<u8>) -> LcdState
    decreases bytes.len(),
{
    if bytes.len() == 0 {
        s
    } else {
        write_data(write_text(s, bytes.drop_last()), bytes.last())
    }
}

/// Writing characters on the display stores them as character data, one
/// after the other.
pub proof fn lemma_display_write_stores(b: LcdBus, bytes: Seq<u8>)
    ensures
        run_bus(b, display_write_ops(bytes)).lcd == write_text(b.lcd, bytes),
    decreases bytes.len(),
{
    if bytes.len() > 0 {
        let prefix = bytes.drop_last();
        lemma_display_write_stores(b, prefix);
        let frame = transmit_spec(DISP_I2C_ADDR, seq![CONTROL_DATA, bytes.last()]);
        lemma_run_bus_concat(b, display_write_ops(prefix), frame);
        lemma_run_frame2(run_bus(b, display_write_ops(prefix)), CONTROL_DATA, bytes.last());
    }
}

/// With the counter in the DDRAM and counting up, character data fills the
/// cells from the address counter on, in order, moves the counter past them
/// and leaves every other cell and the modes as they were.
pub proof fn lemma_write_text_cells(s: LcdState, bytes: Seq<u8>)
    requires
        !s.cgram,
        s.increment,
        0 <= s.address,
        s.address + bytes.len() <= s.ddram.len(),
    ensures
        write_text(s, bytes).address == s.address + bytes.len(),
        !write_text(s, bytes).cgram,
        write_text(s, bytes).increment,
        write_text(s, bytes).extended == s.extended,
        write_text(s, bytes).ddram.len() == s.ddram.len(),
        forall|i: int|
            0 <= i < bytes.len() ==> #[trigger] write_text(s, bytes).ddram[s.address + i]
                == bytes[i],
        forall|j: int|
            0 <= j < s.ddram.len() && (j < s.address || j >= s.address + bytes.len())
                ==> #[trigger] write_text(s, bytes).ddram[j] == s.ddram[j],
    decreases bytes.len(),
{
    if bytes.len() > 0 {
        let prefix = bytes.drop_last();
        lemma_write_text_cells(s, prefix);
        let before = write_text(s, prefix);
        assert forall|i: int| 0 <= i < bytes.len() implies #[trigger] write_text(
            s,
            bytes,
        ).ddram[s.address + i] == bytes[i] by {
            if i < prefix.len() {
                assert(before.ddram[s.address + i] == prefix[i]);
            }
        }
        assert forall|j: int|
            0 <= j < s.ddram.len() && (j < s.address || j >= s.address + bytes.len())
            implies #[trigger] write_text(s, bytes).ddram[j] == s.ddram[j] by {
            assert(before.ddram[j] == s.ddram[j]);
        }
    }
}

/// The controller after each of `values` under one control byte.
pub open spec fn apply_all(s: LcdState, control: u8, values: Seq<u8>) -> LcdState
    decreases values.len(),
{
    if values.len() == 0 {
        s
    } else {
        apply_byte(apply_all(s, control, values.drop_last()), control, values.last())
    }
}

/// Of the steps that send one byte, only the data byte reaches the display.
proof fn lemma_run_byte_ops(b: LcdBus, fb: FrameByte, first: bool, last: bool)
    ensures
        run_bus(b, byte_ops(fb, first, last)) == bus_step(b, BusOp::PutData(fb.data)),
{
    let t = byte_ops(fb, first, last);
    let p1 = seq![BusOp::PutData(fb.data)];
    let p2 = p1.push(BusOp::Command(command_for(first, last)));
    let p3 = p2.push(BusOp::WaitTransfer);
    assert(p1.drop_last() =~= Seq::<BusOp>::empty());
    assert(run_bus(b, Seq::<BusOp>::empty()) == b);
    assert(run_bus(b, p1) == bus_step(b, BusOp::PutData(fb.data)));
    assert(p2.drop_last() =~= p1);
    assert(run_bus(b, p2) == run_bus(b, p1));
    assert(p3.drop_last() =~= p2);
    assert(run_bus(b, p3) == run_bus(b, p2));
    if fb.delay_after_us > 0 {
        assert(t =~= p3.push(BusOp::DelayUs(fb.delay_after_us)));
        assert(t.drop_last() =~= p3);
    } else {
        assert(t =~= p3);
    }
}

proof fn lemma_run_frame_prefix(b: LcdBus, bytes: Seq<FrameByte>, k: nat)
    requires
        1 <= k <= bytes.len(),
    ensures
        run_bus(
            b,
            seq![BusOp::SetSlaveAddress { addr: DISP_I2C_ADDR, receive: false }, BusOp::WaitBusIdle]
                + frame_body(bytes, k),
        ) == (LcdBus {
            lcd: apply_all(b.lcd, bytes[0].data, frame_data(bytes).subrange(1, k as int)),
            listening: true,
            control: Some(bytes[0].data),
        }),
    decreases k,
{
    let head = seq![
        BusOp::SetSlaveAddress { addr: DISP_I2C_ADDR, receive: false },
        BusOp::WaitBusIdle,
    ];
    let j = (k - 1) as nat;
    let last_ops = byte_ops(bytes[j as int], j == 0, j == bytes.len() - 1);
    assert(head + frame_body(bytes, k) =~= (head + frame_body(bytes, j)) + last_ops);
    lemma_run_bus_concat(b, head + frame_body(bytes, j), last_ops);
    lemma_run_byte_ops(
        run_bus(b, head + frame_body(bytes, j)),
        bytes[j as int],
        j == 0,
        j == bytes.len() - 1,
    );
    if k == 1 {
        assert(head + frame_body(bytes, 0) =~= head);
        assert(head.drop_last() =~= seq![BusOp::SetSlaveAddress { addr: DISP_I2C_ADDR, receive: false }]);
        assert(head.drop_last().drop_last() =~= Seq::<BusOp>::empty());
        reveal_with_fuel(run_bus, 3);
        assert(frame_data(bytes).subrange(1, 1) =~= Seq::<u8>::empty());
    } else {
        lemma_run_frame_prefix(b, bytes, j);
        assert(frame_data(bytes).subrange(1, k as int).drop_last() =~= frame_data(bytes).subrange(
            1,
            j as int,
        ));
    }
}

/// A write frame to the display applies every byte after the first under
/// the first, the control byte.
pub proof fn lemma_run_write_frame(b: LcdBus, bytes: Seq<FrameByte>)
    requires
        bytes.len() >= 1,
    ensures
        run_bus(b, write_frame_spec(DISP_I2C_ADDR, bytes)) == (LcdBus {
            lcd: apply_all(b.lcd, bytes[0].data, frame_data(bytes).subrange(1, bytes.len() as int)),
            listening: true,
            control: Some(bytes[0].data),
        }),
{
    lemma_run_frame_prefix(b, bytes, bytes.len());
}

/// Initialisation leaves the display blank, the address counter at DDRAM
/// address 0 and counting up, and the extended instruction table selected,
/// whatever the display held before.
pub proof fn lemma_lcd_init_clears(b: LcdBus)
    ensures
        run_bus(b, write_frame_spec(DISP_I2C_ADDR, lcd_init_sequence())).lcd == (LcdState {
            ddram: blank_ddram(),
            address: 0,
            increment: true,
            extended: true,
            cgram: false,
        }),
{
    let bytes = lcd_init_sequence();
    lemma_run_write_frame(b, bytes);
    let v = frame_data(bytes).subrange(1, bytes.len() as int);
    assert(bytes[0].data == CONTROL_COMMAND);
    assert(v =~= seq![0x38u8, 0x39u8, 0x14u8, 0x7Fu8, 0x5Cu8, 0x6Eu8, 0x0Du8, 0x01u8, 0x06u8]);
    let c = CONTROL_COMMAND;
    let s0 = b.lcd;
    assert(v.subrange(0, 0) =~= Seq::<u8>::empty());
    assert(apply_all(s0, c, v.subrange(0, 0)) == s0);
    assert(v.subrange(0, 1).drop_last() =~= v.subrange(0, 0));
    let s1 = apply_all(s0, c, v.subrange(0, 1));
    assert(s1 == instruction(s0, 0x38u8));
    assert(v.subrange(0, 2).drop_last() =~= v.subrange(0, 1));
    let s2 = apply_all(s0, c, v.subrange(0, 2));
    assert(s2 == instruction(s1, 0x39u8));
    assert(s2.extended);
    assert(v.subrange(0, 3).drop_last() =~= v.subrange(0, 2));
    let s3 = apply_all(s0, c, v.subrange(0, 3));
    assert(s3 == s2);
    assert(v.subrange(0, 4).drop_last() =~= v.subrange(0, 3));
    let s4 = apply_all(s0, c, v.subrange(0, 4));
    assert(s4 == s2);
    assert(v.subrange(0, 5).drop_last() =~= v.subrange(0, 4));
    let s5 = apply_all(s0, c, v.subrange(0, 5));
    assert(s5 == s2);
    assert(v.subrange(0, 6).drop_last() =~= v.subrange(0, 5));
    let s6 = apply_all(s0, c, v.subrange(0, 6));
    assert(s6 == s2);
    assert(v.subrange(0, 7).drop_last() =~= v.subrange(0, 6));
    let s7 = apply_all(s0, c, v.subrange(0, 7));
    assert(s7 == s2);
    assert(v.subrange(0, 8).drop_last() =~= v.subrange(0, 7));
    let s8 = apply_all(s0, c, v.subrange(0, 8));
    assert(s8 == cleared(s2));
    assert(v.subrange(0, 9) =~= v);
    assert(v.drop_last() =~= v.subrange(0, 8));
    assert(apply_all(s0, c, v) == instruction(s8, 0x06u8));
}

} // verus!
