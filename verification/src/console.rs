use vstd::prelude::*;
use crate::board::DISP_I2C_ADDR;
use crate::i2c::{
    BusOp, i2c_transmit_2bytes, lemma_sent_bytes_concat, lemma_transmit_sends_data, sent_bytes,
    transmit_spec,
};
use crate::lcd::CONTROL_DATA;
use vstd::string::StringSliceAdditionalSpecFns;

verus! {

/// One step of sending on UART0.
#[derive(Clone, Copy, Debug, PartialEq, Eq, Structural)]
pub enum UartOp {
    /// Spin while the transmit FIFO is full (`UARTFR.TXFF`).
    WaitTxFifoNotFull,
    /// Write one byte to the data register (`UARTDR`).
    WriteData(u8),
}

/// Text output on UART0.
pub struct UART0;

/// Text output on the display behind I2C module 2.
pub struct I2C2;

/// The UART steps that send `bytes`: for each byte, wait for room in the
/// transmit FIFO, then write it.
pub open spec fn uart_ops(bytes: Seq<u8>) -> Seq<UartOp>
    decreases bytes.len(),
{
    if bytes.len() == 0 {
        Seq::empty()
    } else {
        uart_ops(bytes.drop_last()) + seq![
            UartOp::WaitTxFifoNotFull,
            UartOp::WriteData(bytes.last()),
        ]
    }
}

/// The bus steps that write `bytes` as characters at the cursor: each byte
/// in a frame of its own, after the data control byte.
pub open spec fn display_write_ops(bytes: Seq<u8>) -> Seq<BusOp>
    decreases bytes.len(),
{
    if bytes.len() == 0 {
        Seq::empty()
    } else {
        display_write_ops(bytes.drop_last()) + transmit_spec(
            DISP_I2C_ADDR,
            seq![CONTROL_DATA, bytes.last()],
        )
    }
}

/// Each character byte, preceded by the data control byte.
pub open spec fn with_data_control(bytes: Seq<u8>) -> Seq<u8> {
    Seq::new(
        2 * bytes.len(),
        |i: int|
            if i % 2 == 0 {
                CONTROL_DATA
            } else {
                bytes[i / 2]
            },
    )
}

impl UART0 {
    /// Plan that sends the bytes of `s` on UART0.
    pub fn write_str(&self, s: &str) -> (ops: Vec<UartOp>)
        ensures
            ops@ == uart_ops(s.spec_bytes()),
            ops@.len() == 2 * s.spec_bytes().len(),
            forall|i: int|
                0 <= i < s.spec_bytes().len() ==> ops@.subrange(2 * i, 2 * i + 2) == seq![
                    UartOp::WaitTxFifoNotFull,
                    UartOp::WriteData(#[trigger] s.spec_bytes()[i]),
                ],
    {
        let bytes = s.as_bytes();
        let mut ops: Vec<UartOp> = Vec::new();
        let mut i: usize = 0;
        while i < bytes.len()
            invariant
                i <= bytes.len(),
                bytes@ == s.spec_bytes(),
                ops@ == uart_ops(bytes@.take(i as int)),
            decreases bytes.len() - i,
        {
            ops.push(UartOp::WaitTxFifoNotFull);
            ops.push(UartOp::WriteData(bytes[i]));
            proof {
                let next = bytes@.take(i + 1);
                assert(next.drop_last() =~= bytes@.take(i as int));
                assert(ops@ =~= uart_ops(next));
            }
            i = i + 1;
        }
        assert(bytes@.take(bytes.len() as int) =~= bytes@);
        proof {
            lemma_uart_ops_sends_each_byte(bytes@);
            assert forall|i: int| 0 <= i < s.spec_bytes().len() implies ops@.subrange(
                2 * i,
                2 * i + 2,
            ) == seq![UartOp::WaitTxFifoNotFull, UartOp::WriteData(#[trigger] s.spec_bytes()[i])]
                by {
                assert(bytes@[i] == s.spec_bytes()[i]);
            }
        }
        ops
    }
}

impl I2C2 {
    /// Plan that writes `bytes` as characters on the display.
    pub fn write_bytes(&self, bytes: &[u8]) -> (ops: Vec<BusOp>)
        ensures
            ops@ == display_write_ops(bytes@),
    {
        let mut ops: Vec<BusOp> = Vec::new();
        let mut i: usize = 0;
        while i < bytes.len()
            invariant
                i <= bytes.len(),
                ops@ == display_write_ops(bytes@.take(i as int)),
            decreases bytes.len() - i,
        {
            let mut frame = i2c_transmit_2bytes(CONTROL_DATA, bytes[i], DISP_I2C_ADDR);
            ops.append(&mut frame);
            proof {
                let next = bytes@.take(i + 1);
                assert(next.drop_last() =~= bytes@.take(i as int));
            }
            i = i + 1;
        }
        assert(bytes@.take(bytes.len() as int) =~= bytes@);
        ops
    }

    /// Plan that writes the bytes of `s` as characters on the display.
    pub fn write_str(&self, s: &str) -> (ops: Vec<BusOp>)
        ensures
            ops@ == display_write_ops(s.spec_bytes()),
    {
        self.write_bytes(s.as_bytes())
    }
}

/// Writing characters puts on the bus each character byte after a data
/// control byte, in the order of the text.
pub proof fn lemma_display_write_sends(bytes: Seq<u8>)
    ensures
        sent_bytes(display_write_ops(bytes)) == with_data_control(bytes),
    decreases bytes.len(),
{
    if bytes.len() == 0 {
        assert(with_data_control(bytes) =~= Seq::<u8>::empty());
    } else {
        let prefix = bytes.drop_last();
        lemma_display_write_sends(prefix);
        lemma_sent_bytes_concat(
            display_write_ops(prefix),
            transmit_spec(DISP_I2C_ADDR, seq![CONTROL_DATA, bytes.last()]),
        );
        lemma_transmit_sends_data(DISP_I2C_ADDR, seq![CONTROL_DATA, bytes.last()]);
        assert(with_data_control(bytes) =~= with_data_control(prefix) + seq![
            CONTROL_DATA,
            bytes.last(),
        ]);
    }
}

/// ASCII space.
pub const SPACE: u8 = 0x20;

/// ASCII colon.
pub const COLON: u8 = 0x3A;

/// ASCII carriage return.
pub const CARRIAGE_RETURN: u8 = 0x0D;

/// ASCII digit zero.
pub const DIGIT_ZERO: u8 = 0x30;

/// The decimal digits of `n` in ASCII, most significant first, without
/// leading zeros ("0" for zero).
pub open spec fn decimal(n: nat) -> Seq<u8>
    decreases n,
{
    if n < 10 {
        seq![(DIGIT_ZERO + n) as u8]
    } else {
        decimal(n / 10).push((DIGIT_ZERO + n % 10) as u8)
    }
}

/// `n` in decimal, zero-padded to at least two digits (the `{:02}` format).
pub open spec fn decimal_pad2(n: nat) -> Seq<u8> {
    if n < 10 {
        seq![DIGIT_ZERO, (DIGIT_ZERO + n) as u8]
    } else {
        decimal(n)
    }
}

/// The clock line: " HH:MM:SS" and a carriage return.
pub open spec fn clock_text(hours: nat, minutes: nat, seconds: nat) -> Seq<u8> {
    seq![SPACE] + decimal_pad2(hours) + seq![COLON] + decimal_pad2(minutes) + seq![COLON]
        + decimal_pad2(seconds) + seq![CARRIAGE_RETURN]
}

/// Appends the decimal digits of `n`.
fn push_decimal(out: &mut Vec<u8>, n: u32)
    ensures
        final(out)@ == old(out)@ + decimal(n as nat),
    decreases n,
{
    if n >= 10 {
        push_decimal(out, n / 10);
    }
    out.push(DIGIT_ZERO + (n % 10) as u8);
    proof {
        if n >= 10 {
            assert(old(out)@ + decimal(n as nat) =~= old(out)@ + decimal((n / 10) as nat) + seq![
                (DIGIT_ZERO + n % 10) as u8,
            ]);
        }
    }
}

/// Appends `n` in decimal, zero-padded to two digits.
fn push_decimal_pad2(out: &mut Vec<u8>, n: u32)
    ensures
        final(out)@ == old(out)@ + decimal_pad2(n as nat),
{
    if n < 10 {
        out.push(DIGIT_ZERO);
    }
    push_decimal(out, n);
    proof {
        if n < 10 {
            assert(old(out)@.push(DIGIT_ZERO) + decimal(n as nat) =~= old(out)@ + decimal_pad2(
                n as nat,
            ));
        }
    }
}

/// The text that shows a time of day: " HH:MM:SS" followed by a carriage
/// return, each field zero-padded to two digits.
pub fn format_clock(hours: u32, minutes: u32, seconds: u32) -> (text: Vec<u8>)
    ensures
        text@ == clock_text(hours as nat, minutes as nat, seconds as nat),
        minutes < 100 && seconds < 100 ==> {
            let n = text@.len() as int;
            &&& n >= 10
            &&& text@[0] == SPACE
            &&& text@[n - 7] == COLON
            &&& text@[n - 4] == COLON
            &&& text@[n - 1] == CARRIAGE_RETURN
            &&& decimal_value(text@.subrange(1, n - 7)) == hours
            &&& decimal_value(text@.subrange(n - 6, n - 4)) == minutes
            &&& decimal_value(text@.subrange(n - 3, n - 1)) == seconds
        },
{
    let mut text: Vec<u8> = Vec::new();
    text.push(SPACE);
    push_decimal_pad2(&mut text, hours);
    text.push(COLON);
    push_decimal_pad2(&mut text, minutes);
    text.push(COLON);
    push_decimal_pad2(&mut text, seconds);
    text.push(CARRIAGE_RETURN);
    assert(text@ =~= clock_text(hours as nat, minutes as nat, seconds as nat));
    proof {
        if minutes < 100 && seconds < 100 {
            lemma_clock_text_fields(hours as nat, minutes as nat, seconds as nat);
        }
    }
    text
}

/// The number that a string of ASCII decimal digits stands for.
pub open spec fn decimal_value(digits: Seq<u8>) -> int
    decreases digits.len(),
{
    if digits.len() == 0 {
        0
    } else {
        decimal_value(digits.drop_last()) * 10 + (digits.last() - DIGIT_ZERO)
    }
}

/// Whether every byte is an ASCII decimal digit.
pub open spec fn all_digits(digits: Seq<u8>) -> bool {
    forall|i: int| 0 <= i < digits.len() ==> DIGIT_ZERO <= #[trigger] digits[i] <= 0x39
}

proof fn lemma_decimal(n: nat)
    ensures
        all_digits(decimal(n)),
        decimal_value(decimal(n)) == n,
        1 <= decimal(n).len(),
        n < 100 ==> decimal(n).len() <= 2,
        n >= 10 ==> decimal(n).len() >= 2,
    decreases n,
{
    if n < 10 {
        let d = decimal(n);
        assert(d.drop_last() =~= Seq::<u8>::empty());
        assert(decimal_value(d.drop_last()) == 0);
        assert(d.last() == DIGIT_ZERO + n);
    } else {
        lemma_decimal(n / 10);
        let d = decimal(n);
        assert(d.drop_last() =~= decimal(n / 10));
        assert(d.last() == DIGIT_ZERO + n % 10);
        assert(n == (n / 10) * 10 + n % 10);
    }
}

/// A zero-padded decimal field consists of digits only, reads back as the
/// number it was made from, and is exactly two characters wide for numbers
/// below 100.
pub proof fn lemma_decimal_pad2_round_trip(n: nat)
    ensures
        all_digits(decimal_pad2(n)),
        decimal_value(decimal_pad2(n)) == n,
        decimal_pad2(n).len() >= 2,
        n < 100 ==> decimal_pad2(n).len() == 2,
{
    lemma_decimal(n);
    if n < 10 {
        let d = decimal_pad2(n);
        assert(d.drop_last() =~= seq![DIGIT_ZERO]);
        assert(d.drop_last().drop_last() =~= Seq::<u8>::empty());
        reveal_with_fuel(decimal_value, 3);
    }
}

/// Ten to the power `k`.
pub open spec fn pow10(k: nat) -> nat
    decreases k,
{
    if k == 0 {
        1
    } else {
        10 * pow10((k - 1) as nat)
    }
}

proof fn lemma_decimal_len(n: nat, k: nat)
    requires
        1 <= k,
        n < pow10(k),
    ensures
        decimal(n).len() <= k,
    decreases k,
{
    if n >= 10 {
        if k == 1 {
            assert(pow10(1) == 10) by {
                reveal_with_fuel(pow10, 2);
            }
        } else {
            assert(n / 10 < pow10((k - 1) as nat));
            lemma_decimal_len(n / 10, (k - 1) as nat);
            let d = decimal(n);
            assert(d.len() == decimal(n / 10).len() + 1);
        }
    }
}

/// The clock line is at most 34 characters: each field of a `u32` has at
/// most ten digits.
pub proof fn lemma_clock_text_len(hours: u32, minutes: u32, seconds: u32)
    ensures
        clock_text(hours as nat, minutes as nat, seconds as nat).len() <= 34,
{
    assert(pow10(10) == 10_000_000_000) by {
        reveal_with_fuel(pow10, 11);
    }
    lemma_decimal_len(hours as nat, 10);
    lemma_decimal_len(minutes as nat, 10);
    lemma_decimal_len(seconds as nat, 10);
}

/// The UART plan sends every byte of the text exactly once and in order,
/// each after a wait for room in the transmit FIFO: steps `2 i` and
/// `2 i + 1` wait and then write byte `i`.
pub proof fn lemma_uart_ops_sends_each_byte(bytes: Seq<u8>)
    ensures
        uart_ops(bytes).len() == 2 * bytes.len(),
        forall|i: int|
            0 <= i < bytes.len() ==> uart_ops(bytes).subrange(2 * i, 2 * i + 2) == seq![
                UartOp::WaitTxFifoNotFull,
                UartOp::WriteData(#[trigger] bytes[i]),
            ],
    decreases bytes.len(),
{
    if bytes.len() > 0 {
        let prefix = bytes.drop_last();
        lemma_uart_ops_sends_each_byte(prefix);
        let ops = uart_ops(bytes);
        let before = uart_ops(prefix);
        let tail = seq![UartOp::WaitTxFifoNotFull, UartOp::WriteData(bytes.last())];
        assert(ops == before + tail);
        assert forall|i: int| 0 <= i < bytes.len() implies ops.subrange(2 * i, 2 * i + 2) == seq![
            UartOp::WaitTxFifoNotFull,
            UartOp::WriteData(#[trigger] bytes[i]),
        ] by {
            if i < prefix.len() {
                assert(prefix[i] == bytes[i]);
                assert(before.subrange(2 * i, 2 * i + 2) == seq![
                    UartOp::WaitTxFifoNotFull,
                    UartOp::WriteData(prefix[i]),
                ]);
                assert(ops.subrange(2 * i, 2 * i + 2) =~= before.subrange(2 * i, 2 * i + 2));
            } else {
                assert(i == prefix.len());
                assert(ops.subrange(2 * i, 2 * i + 2) =~= tail);
            }
        }
    }
}

/// The clock line reads back as the time it shows: a space, the hours, a
/// colon, the minutes, a colon, the seconds and a carriage return, where
/// each field is a string of at least two digits whose value is that field,
/// and minutes and seconds below 100 take exactly two digits.
pub proof fn lemma_clock_text_reads_back(hours: nat, minutes: nat, seconds: nat)
    ensures
        exists|h: Seq<u8>, m: Seq<u8>, s: Seq<u8>|
            {
                &&& clock_text(hours, minutes, seconds) == seq![SPACE] + h + seq![COLON] + m
                    + seq![COLON] + s + seq![CARRIAGE_RETURN]
                &&& all_digits(h) && decimal_value(h) == hours && h.len() >= 2
                &&& all_digits(m) && decimal_value(m) == minutes && m.len() >= 2
                &&& all_digits(s) && decimal_value(s) == seconds && s.len() >= 2
                &&& minutes < 100 ==> m.len() == 2
                &&& seconds < 100 ==> s.len() == 2
            },
{
    lemma_decimal_pad2_round_trip(hours);
    lemma_decimal_pad2_round_trip(minutes);
    lemma_decimal_pad2_round_trip(seconds);
    let h = decimal_pad2(hours);
    let m = decimal_pad2(minutes);
    let s = decimal_pad2(seconds);
    assert(clock_text(hours, minutes, seconds) == seq![SPACE] + h + seq![COLON] + m + seq![COLON]
        + s + seq![CARRIAGE_RETURN]);
}

/// With minutes and seconds below 100, the fields of the clock line stand
/// at fixed places from its end: the hours between the leading space and
/// the colon seven characters from the end, the minutes in the two
/// characters after that colon, the seconds in the two characters after the
/// colon four characters from the end, and a carriage return last.
pub proof fn lemma_clock_text_fields(hours: nat, minutes: nat, seconds: nat)
    requires
        minutes < 100,
        seconds < 100,
    ensures
        ({
            let t = clock_text(hours, minutes, seconds);
            let n = t.len() as int;
            &&& n >= 10
            &&& t[0] == SPACE
            &&& t[n - 7] == COLON
            &&& t[n - 4] == COLON
            &&& t[n - 1] == CARRIAGE_RETURN
            &&& all_digits(t.subrange(1, n - 7))
            &&& decimal_value(t.subrange(1, n - 7)) == hours
            &&& all_digits(t.subrange(n - 6, n - 4))
            &&& decimal_value(t.subrange(n - 6, n - 4)) == minutes
            &&& all_digits(t.subrange(n - 3, n - 1))
            &&& decimal_value(t.subrange(n - 3, n - 1)) == seconds
        }),
{
    lemma_decimal_pad2_round_trip(hours);
    lemma_decimal_pad2_round_trip(minutes);
    lemma_decimal_pad2_round_trip(seconds);
    let h = decimal_pad2(hours);
    let m = decimal_pad2(minutes);
    let s = decimal_pad2(seconds);
    let t = clock_text(hours, minutes, seconds);
    let n = t.len() as int;
    assert(t == seq![SPACE] + h + seq![COLON] + m + seq![COLON] + s + seq![CARRIAGE_RETURN]);
    assert(n == h.len() + 8);
    assert(t.subrange(1, n - 7) =~= h);
    assert(t.subrange(n - 6, n - 4) =~= m);
    assert(t.subrange(n - 3, n - 1) =~= s);
    assert(t[n - 7] == COLON);
    assert(t[n - 4] == COLON);
}

} // verus!
