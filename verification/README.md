# i2c_lcd

Firmware logic for a TM4C129 board that drives a MIDAS MCCOG22005A6W-SPTLYI
character display over I2C module 2: it initialises the display, writes
"test", and then shows a clock that the SysTick interrupt advances.

- `src/` is the verified library. It decides what goes on the bus and returns
  it as plans (`i2c::BusOp` sequences): write frames (`i2c`), display
  instructions (`lcd`), text output and the clock's text (`console`), the
  clock state machine and the start-up plan (`firmware`), pin, divisor and
  delay values (`board`), and a model of the display controller's DDRAM and
  address counter that the laws about what is shown use (`lcd_model`).
- `app/` is the firmware around it: register set-up, and a small interpreter
  that performs the plans on the peripheral registers.
- `tests/` runs the library on concrete values.
