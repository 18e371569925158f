use i2c_lcd::console::{format_clock, I2C2};
use i2c_lcd::board::SYSCLK_HZ;
use i2c_lcd::firmware::{
    startup_sequence, Clock, SYS_TICK_RELOAD, SYS_TICK_RELOAD_VALUE, TICKS_PER_SECOND,
};
use i2c_lcd::i2c::BusOp;
use i2c_lcd::lcd::{disp_cursor_on_off, set_cursor, LCD_init, LINE1};
use i2c_lcd::board::DISP_I2C_ADDR;

fn elapsed(c: &Clock) -> u64 {
    c.sys_tick_irq_count as u64
        + 8 * (c.sec_irq_count as u64 + 60 * (c.min_irq_count as u64 + 60 * c.hours_irq_count as u64))
}

#[test]
fn new_clock_is_zero() {
    let c = Clock::new();
    assert_eq!(
        c,
        Clock {
            sys_tick_irq_count: 0,
            sec_irq_count: 0,
            min_irq_count: 0,
            hours_irq_count: 0,
            new_sec_flag: 0,
        }
    );
}

#[test]
fn eight_ticks_make_a_second() {
    let mut c = Clock::new();
    for _ in 0..7 {
        c.sys_tick();
        assert_eq!(c.new_sec_flag, 0);
        assert_eq!(c.sec_irq_count, 0);
    }
    c.sys_tick();
    assert_eq!(c.sys_tick_irq_count, 0);
    assert_eq!(c.sec_irq_count, 1);
    assert_eq!(c.new_sec_flag, 1);
}

#[test]
fn seconds_roll_over_at_60() {
    let mut c = Clock {
        sys_tick_irq_count: 7,
        sec_irq_count: 59,
        min_irq_count: 3,
        hours_irq_count: 0,
        new_sec_flag: 0,
    };
    c.sys_tick();
    assert_eq!((c.sec_irq_count, c.min_irq_count, c.hours_irq_count), (0, 4, 0));
}

#[test]
fn minutes_roll_into_hours() {
    let mut c = Clock {
        sys_tick_irq_count: 7,
        sec_irq_count: 59,
        min_irq_count: 59,
        hours_irq_count: 7,
        new_sec_flag: 1,
    };
    c.sys_tick();
    assert_eq!(
        c,
        Clock {
            sys_tick_irq_count: 0,
            sec_irq_count: 0,
            min_irq_count: 0,
            hours_irq_count: 8,
            new_sec_flag: 1,
        }
    );
}

#[test]
fn each_tick_counts_one() {
    let mut c = Clock::new();
    for n in 1..=40000u64 {
        c.sys_tick();
        assert_eq!(elapsed(&c), n);
        assert!(c.sys_tick_irq_count < 8 && c.sec_irq_count < 60 && c.min_irq_count < 60);
    }
}

#[test]
fn refresh_shows_time_once() {
    let mut c = Clock::new();
    assert!(c.refresh_display().is_empty());
    for _ in 0..8 {
        c.sys_tick();
    }
    let ops = c.refresh_display();
    let mut expected = set_cursor(LINE1, 0);
    expected.extend(I2C2.write_bytes(&format_clock(0, 0, 1)));
    assert_eq!(ops, expected);
    assert_eq!(c.new_sec_flag, 0);
    assert!(c.refresh_display().is_empty());
}

#[test]
fn startup_plan() {
    let ops = startup_sequence();
    let mut expected = vec![BusOp::DelayUs(10000)];
    expected.extend(LCD_init(DISP_I2C_ADDR));
    expected.extend(disp_cursor_on_off(0x04, 0, 0));
    expected.extend(I2C2.write_str("test"));
    assert_eq!(ops, expected);
}

#[test]
fn systick_reload() {
    assert_eq!(SYS_TICK_RELOAD, 14_999_999);
    assert!(SYS_TICK_RELOAD <= 0x00FF_FFFF);
}

#[test]
fn counted_second_is_a_real_second() {
    assert_eq!(TICKS_PER_SECOND as u64 * SYS_TICK_RELOAD_VALUE as u64, SYSCLK_HZ as u64);
}

#[test]
fn seconds_run_to_59() {
    let mut c = Clock::new();
    let mut seen_59 = false;
    for _ in 0..(8 * 60) {
        c.sys_tick();
        if c.sec_irq_count == 59 {
            seen_59 = true;
        }
    }
    assert!(seen_59);
    assert_eq!((c.sec_irq_count, c.min_irq_count), (0, 1));
}

#[test]
fn an_hour_is_sixty_minutes() {
    let mut c = Clock::new();
    for _ in 0..(8 * 60 * 60) {
        c.sys_tick();
    }
    assert_eq!(
        (c.sys_tick_irq_count, c.sec_irq_count, c.min_irq_count, c.hours_irq_count),
        (0, 0, 0, 1)
    );
}
