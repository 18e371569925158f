use vstd::prelude::*;
use crate::board::{DISP_I2C_ADDR, SYSCLK_HZ};
use crate::console::{I2C2, clock_text, display_write_ops, format_clock, lemma_clock_text_len};
use crate::lcd_model::{
    LcdBus, ddram_size, lemma_display_write_stores, lemma_run_bus_concat,
    lemma_set_cursor_moves_address, lemma_write_text_cells, run_bus, write_text, blank, blank_ddram, LcdState,
    lemma_lcd_init_clears, lemma_run_bus_push_delay, lemma_run_frame2,
};
use crate::i2c::{BusOp, transmit_spec, write_frame_spec};
use crate::lcd::{
    CONTROL_COMMAND, DISP_ON_OFF_D_POS, LCD_init, LINE1, cursor_ops, disp_cursor_on_off,
    flag_mask, lcd_init_sequence, set_cursor,
};

verus! {

/// SysTick period in core clock cycles (8 Hz at the 120 MHz core clock).
pub const SYS_TICK_RELOAD_VALUE: u32 = 15_000_000;

/// Largest value the 24-bit SysTick reload register holds.
pub const SYST_RELOAD_MAX: u32 = 0x00FF_FFFF;

/// Value for the SysTick reload register: the counter wraps every
/// `SYS_TICK_RELOAD_VALUE` cycles.
pub const SYS_TICK_RELOAD: u32 = SYS_TICK_RELOAD_VALUE - 1;

/// SysTick interrupts counted as one second: eight periods of
/// `SYS_TICK_RELOAD_VALUE` cycles at the 120 MHz core clock are one second
/// of real time (see `lemma_tick_rate`).
pub const TICKS_PER_SECOND: u32 = 8;

/// Seconds per minute and minutes per hour: the second and minute counters
/// roll over to zero when they reach this value.
pub const COUNTER_WRAP: u32 = 60;

/// Wait before the display is initialised, in microseconds.
pub const POWER_UP_DELAY_US: u32 = 10000;

/// The clock that the SysTick interrupt advances and the main loop shows.
#[derive(Clone, Copy, Debug, PartialEq, Eq, Structural)]
pub struct Clock {
    /// SysTick interrupts since the last full second.
    pub sys_tick_irq_count: u32,
    /// Seconds counter.
    pub sec_irq_count: u32,
    /// Minutes counter.
    pub min_irq_count: u32,
    /// Hours counter.
    pub hours_irq_count: u32,
    /// 1 when a second has passed that the display does not show yet.
    pub new_sec_flag: u8,
}

impl Clock {
    /// The states the clock can reach from its start: counters below their
    /// roll-over values and the flag 0 or 1.
    pub open spec fn wf(self) -> bool {
        &&& self.sys_tick_irq_count < TICKS_PER_SECOND
        &&& self.sec_irq_count < COUNTER_WRAP
        &&& self.min_irq_count < COUNTER_WRAP
        &&& self.new_sec_flag <= 1
    }

    /// Whether the next tick carries into an hours counter that is already at
    /// its largest value.
    pub open spec fn hours_overflow_next(self) -> bool {
        &&& self.sys_tick_irq_count + 1 == TICKS_PER_SECOND
        &&& self.sec_irq_count + 1 == COUNTER_WRAP
        &&& self.min_irq_count + 1 == COUNTER_WRAP
        &&& self.hours_irq_count == u32::MAX
    }

    /// The clock after one SysTick interrupt: count the tick; on the last
    /// tick of a second, count a second and raise the flag; seconds carry
    /// into minutes and minutes into hours when they reach 60.
    pub open spec fn ticked(self) -> Clock {
        if self.sys_tick_irq_count + 1 == TICKS_PER_SECOND {
            if self.sec_irq_count + 1 == COUNTER_WRAP {
                if self.min_irq_count + 1 == COUNTER_WRAP {
                    Clock {
                        sys_tick_irq_count: 0,
                        sec_irq_count: 0,
                        min_irq_count: 0,
                        hours_irq_count: (self.hours_irq_count + 1) as u32,
                        new_sec_flag: 1,
                    }
                } else {
                    Clock {
                        sys_tick_irq_count: 0,
                        sec_irq_count: 0,
                        min_irq_count: (self.min_irq_count + 1) as u32,
                        hours_irq_count: self.hours_irq_count,
                        new_sec_flag: 1,
                    }
                }
            } else {
                Clock {
                    sys_tick_irq_count: 0,
                    sec_irq_count: (self.sec_irq_count + 1) as u32,
                    min_irq_count: self.min_irq_count,
                    hours_irq_count: self.hours_irq_count,
                    new_sec_flag: 1,
                }
            }
        } else {
            Clock {
                sys_tick_irq_count: (self.sys_tick_irq_count + 1) as u32,
                sec_irq_count: self.sec_irq_count,
                min_irq_count: self.min_irq_count,
                hours_irq_count: self.hours_irq_count,
                new_sec_flag: self.new_sec_flag,
            }
        }
    }

    /// The number of SysTick interrupts that the counters stand for.
    pub open spec fn elapsed_ticks(self) -> int {
        self.sys_tick_irq_count + TICKS_PER_SECOND * (self.sec_irq_count + COUNTER_WRAP * (
        self.min_irq_count + COUNTER_WRAP * self.hours_irq_count))
    }

    /// The clock at power-up: everything zero.
    pub fn new() -> (c: Clock)
        ensures
            c.wf(),
            c.sys_tick_irq_count == 0,
            c.sec_irq_count == 0,
            c.min_irq_count == 0,
            c.hours_irq_count == 0,
            c.new_sec_flag == 0,
    {
        Clock {
            sys_tick_irq_count: 0,
            sec_irq_count: 0,
            min_irq_count: 0,
            hours_irq_count: 0,
            new_sec_flag: 0,
        }
    }

    /// The SysTick interrupt: advances the clock by one tick.
    pub fn sys_tick(&mut self)
        requires
            old(self).wf(),
            !old(self).hours_overflow_next(),
        ensures
            *final(self) == old(self).ticked(),
            final(self).wf(),
    {
        self.sys_tick_irq_count = self.sys_tick_irq_count + 1;
        if self.sys_tick_irq_count == TICKS_PER_SECOND {
            self.sys_tick_irq_count = 0;
            self.sec_irq_count = self.sec_irq_count + 1;
            if self.sec_irq_count == COUNTER_WRAP {
                self.sec_irq_count = 0;
                self.min_irq_count = self.min_irq_count + 1;
                if self.min_irq_count == COUNTER_WRAP {
                    self.min_irq_count = 0;
                    self.hours_irq_count = self.hours_irq_count + 1;
                }
            }
            self.new_sec_flag = 1;
        }
    }

    /// One pass of the main loop, as a state change and a plan: when a new
    /// second is flagged, lower the flag and show the time at the start of
    /// the first line; otherwise do nothing.
    pub open spec fn refreshed(self) -> (Clock, Seq<BusOp>) {
        if self.new_sec_flag == 1 {
            (
                Clock { new_sec_flag: 0, ..self },
                cursor_ops(LINE1, 0) + display_write_ops(
                    clock_text(
                        self.hours_irq_count as nat,
                        self.min_irq_count as nat,
                        self.sec_irq_count as nat,
                    ),
                ),
            )
        } else {
            (self, Seq::empty())
        }
    }

    /// One pass of the main loop.
    pub fn refresh_display(&mut self) -> (ops: Vec<BusOp>)
        ensures
            (*final(self), ops@) == old(self).refreshed(),
    {
        if self.new_sec_flag == 1 {
            self.new_sec_flag = 0;
            let mut ops = set_cursor(LINE1, 0);
            let text = format_clock(
                self.hours_irq_count,
                self.min_irq_count,
                self.sec_irq_count,
            );
            let mut shown = I2C2.write_bytes(text.as_slice());
            ops.append(&mut shown);
            ops
        } else {
            Vec::new()
        }
    }
}

/// The time is shown once per flagged second: a refresh leaves the flag
/// down and the counters as they were, so a second refresh before the next
/// completed second shows nothing.
pub proof fn lemma_refresh_shows_once(c: Clock)
    requires
        c.wf(),
    ensures
        c.refreshed().0.wf(),
        c.refreshed().0.new_sec_flag == 0,
        c.refreshed().0.elapsed_ticks() == c.elapsed_ticks(),
        c.refreshed().0.refreshed() == (c.refreshed().0, Seq::<BusOp>::empty()),
{
}

/// The counted second is a second of real time: `TICKS_PER_SECOND` SysTick
/// periods make exactly `SYSCLK_HZ` core clock cycles, and the reload value
/// fits the 24-bit reload register.
pub proof fn lemma_tick_rate()
    ensures
        TICKS_PER_SECOND * SYS_TICK_RELOAD_VALUE == SYSCLK_HZ,
        1 <= SYS_TICK_RELOAD <= SYST_RELOAD_MAX,
{
}

/// A refresh that follows a completed second writes the clock line into the
/// first cells of the display's first line (at most 34 of its 40 DDRAM
/// cells) and leaves the rest of the display as it was, given a display that
/// counts up after each character, as start-up leaves it.
pub proof fn lemma_refresh_shows_time(c: Clock, b: LcdBus)
    requires
        c.new_sec_flag == 1,
        b.lcd.ddram.len() == ddram_size(),
        b.lcd.increment,
    ensures
        ({
            let text = clock_text(
                c.hours_irq_count as nat,
                c.min_irq_count as nat,
                c.sec_irq_count as nat,
            );
            let shown = run_bus(b, c.refreshed().1).lcd;
            &&& shown.ddram.subrange(0, text.len() as int) == text
            &&& forall|j: int|
                text.len() <= j < ddram_size() ==> #[trigger] shown.ddram[j] == b.lcd.ddram[j]
            &&& shown.address == text.len()
        }),
{
    let text = clock_text(c.hours_irq_count as nat, c.min_irq_count as nat, c.sec_irq_count as nat);
    lemma_clock_text_len(c.hours_irq_count, c.min_irq_count, c.sec_irq_count);
    lemma_run_bus_concat(b, cursor_ops(LINE1, 0), display_write_ops(text));
    lemma_set_cursor_moves_address(b, LINE1, 0);
    let at_home = run_bus(b, cursor_ops(LINE1, 0));
    lemma_display_write_stores(at_home, text);
    lemma_write_text_cells(at_home.lcd, text);
    let shown = run_bus(b, c.refreshed().1).lcd;
    assert(at_home.lcd.address == 0);
    assert(shown == write_text(at_home.lcd, text));
    assert forall|i: int| 0 <= i < text.len() implies shown.ddram[i] == text[i] by {
        assert(write_text(at_home.lcd, text).ddram[at_home.lcd.address + i] == text[i]);
    }
    assert(shown.ddram.subrange(0, text.len() as int) =~= text);
}

/// One tick advances the time that the counters stand for by exactly one
/// tick, and keeps the clock in its reachable states.
pub proof fn lemma_tick_counts_one(c: Clock)
    requires
        c.wf(),
        !c.hours_overflow_next(),
    ensures
        c.ticked().wf(),
        c.ticked().elapsed_ticks() == c.elapsed_ticks() + 1,
        c.hours_irq_count <= c.ticked().hours_irq_count <= c.hours_irq_count + 1,
{
}

/// The flag goes up exactly on the ticks that complete a second, and the
/// refresh that follows such a tick shows the new time.
pub proof fn lemma_second_flagged(c: Clock)
    requires
        c.wf(),
        !c.hours_overflow_next(),
    ensures
        (c.ticked().sys_tick_irq_count == 0) == (c.sys_tick_irq_count + 1 == TICKS_PER_SECOND),
        c.ticked().sys_tick_irq_count == 0 ==> c.ticked().new_sec_flag == 1,
        c.ticked().sys_tick_irq_count != 0 ==> c.ticked().new_sec_flag == c.new_sec_flag,
        c.ticked().sys_tick_irq_count == 0 ==> c.ticked().refreshed().1 == cursor_ops(LINE1, 0)
            + display_write_ops(
            clock_text(
                c.ticked().hours_irq_count as nat,
                c.ticked().min_irq_count as nat,
                c.ticked().sec_irq_count as nat,
            ),
        ),
{
}

/// The display start-up: wait for the display to power up, initialise it,
/// turn the display on with the cursor hidden, and write "test".
pub open spec fn startup_plan() -> Seq<BusOp> {
    seq![BusOp::DelayUs(POWER_UP_DELAY_US)] + write_frame_spec(DISP_I2C_ADDR, lcd_init_sequence())
        + transmit_spec(
        DISP_I2C_ADDR,
        seq![CONTROL_COMMAND, 0x08u8 | flag_mask(true, DISP_ON_OFF_D_POS) | 0u8 | 0u8],
    ).push(BusOp::DelayUs(30)) + display_write_ops(seq![0x74u8, 0x65u8, 0x73u8, 0x74u8])
}

/// After start-up the display shows "test" in the first four cells of its
/// first line, every other cell is blank, and the cursor follows the text;
/// whatever the display held before.
pub proof fn lemma_startup_shows_test(b: LcdBus)
    ensures
        ({
            let shown = run_bus(b, startup_plan()).lcd;
            &&& shown.ddram.subrange(0, 4) == seq![0x74u8, 0x65u8, 0x73u8, 0x74u8]
            &&& forall|j: int| 4 <= j < ddram_size() ==> #[trigger] shown.ddram[j] == blank()
            &&& shown.address == 4
            &&& shown.increment
        }),
{
    let a = seq![BusOp::DelayUs(POWER_UP_DELAY_US)];
    let init = write_frame_spec(DISP_I2C_ADDR, lcd_init_sequence());
    let value = 0x08u8 | flag_mask(true, DISP_ON_OFF_D_POS) | 0u8 | 0u8;
    let frame = transmit_spec(DISP_I2C_ADDR, seq![CONTROL_COMMAND, value]);
    let on = frame.push(BusOp::DelayUs(30));
    let text = seq![0x74u8, 0x65u8, 0x73u8, 0x74u8];
    lemma_run_bus_concat(b, a + init + on, display_write_ops(text));
    lemma_run_bus_concat(b, a + init, on);
    lemma_run_bus_concat(b, a, init);
    assert(a.drop_last() =~= Seq::<BusOp>::empty());
    assert(run_bus(b, Seq::<BusOp>::empty()) == b);
    let b1 = run_bus(b, a);
    lemma_lcd_init_clears(b1);
    let b2 = run_bus(b, a + init);
    lemma_run_bus_push_delay(b2, frame, 30);
    lemma_run_frame2(b2, CONTROL_COMMAND, value);
    assert(0x08u8 | ((1u8 << 2u8) as u8) | 0u8 | 0u8 == 0x0Cu8) by (bit_vector);
    let b3 = run_bus(b, a + init + on);
    let ready = LcdState {
        ddram: blank_ddram(),
        address: 0,
        increment: true,
        extended: true,
        cgram: false,
    };
    assert(b3.lcd == ready);
    lemma_display_write_stores(b3, text);
    lemma_write_text_cells(ready, text);
    let shown = run_bus(b, startup_plan()).lcd;
    assert(shown == write_text(ready, text));
    assert forall|i: int| 0 <= i < 4 implies shown.ddram[i] == text[i] by {
        assert(write_text(ready, text).ddram[ready.address + i] == text[i]);
    }
    assert(shown.ddram.subrange(0, 4) =~= text);
    assert forall|j: int| 4 <= j < ddram_size() implies #[trigger] shown.ddram[j] == blank() by {
        assert(write_text(ready, text).ddram[j] == ready.ddram[j]);
    }
}

/// Plan of the display start-up.
pub fn startup_sequence() -> (ops: Vec<BusOp>)
    ensures
        ops@ == startup_plan(),
{
    let mut ops: Vec<BusOp> = Vec::new();
    ops.push(BusOp::DelayUs(POWER_UP_DELAY_US));
    let mut init = LCD_init(DISP_I2C_ADDR);
    ops.append(&mut init);
    let d_mask: u8 = 1 << DISP_ON_OFF_D_POS;
    let mut on = disp_cursor_on_off(d_mask, 0x00, 0x00);
    ops.append(&mut on);
    // "test"
    let greeting: [u8; 4] = [0x74, 0x65, 0x73, 0x74];
    let mut text = I2C2.write_bytes(&greeting);
    ops.append(&mut text);
    proof {
        assert(greeting@ =~= seq![0x74u8, 0x65u8, 0x73u8, 0x74u8]);
    }
    ops
}

} // verus!
