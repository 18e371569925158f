use i2c_lcd::i2c::{
    i2c_receive, i2c_transmit, i2c_transmit_2bytes, i2c_transmit_3bytes, write_frame,
    frame_command, BusOp, FrameByte, MCS_RUN, MCS_START, MCS_STOP,
};

fn sent(ops: &[BusOp]) -> Vec<u8> {
    ops.iter()
        .filter_map(|op| match op {
            BusOp::PutData(b) => Some(*b),
            _ => None,
        })
        .collect()
}

fn commands(ops: &[BusOp]) -> Vec<u8> {
    ops.iter()
        .filter_map(|op| match op {
            BusOp::Command(c) => Some(*c),
            _ => None,
        })
        .collect()
}

#[test]
fn frame_command_values() {
    assert_eq!(frame_command(true, true), 0b0111);
    assert_eq!(frame_command(true, false), 0b0011);
    assert_eq!(frame_command(false, true), 0b0101);
    assert_eq!(frame_command(false, false), 0b0001);
    assert_eq!(frame_command(true, true), MCS_START | MCS_STOP | MCS_RUN);
}

#[test]
fn transmit_one_byte() {
    let ops = i2c_transmit(0xAB, 0x3C);
    assert_eq!(
        ops,
        vec![
            BusOp::SetSlaveAddress { addr: 0x3C, receive: false },
            BusOp::WaitBusIdle,
            BusOp::PutData(0xAB),
            BusOp::Command(0b0111),
            BusOp::WaitTransfer,
        ]
    );
}

#[test]
fn transmit_two_bytes() {
    let ops = i2c_transmit_2bytes(0x00, 0x38, 0x3C);
    assert_eq!(
        ops,
        vec![
            BusOp::SetSlaveAddress { addr: 0x3C, receive: false },
            BusOp::WaitBusIdle,
            BusOp::PutData(0x00),
            BusOp::Command(0b0011),
            BusOp::WaitTransfer,
            BusOp::PutData(0x38),
            BusOp::Command(0b0101),
            BusOp::WaitTransfer,
        ]
    );
}

#[test]
fn transmit_three_bytes() {
    let ops = i2c_transmit_3bytes(1, 2, 3, 0x10);
    assert_eq!(ops.len(), 11);
    assert_eq!(sent(&ops), vec![1, 2, 3]);
    assert_eq!(commands(&ops), vec![0b0011, 0b0001, 0b0101]);
    assert_eq!(ops[0], BusOp::SetSlaveAddress { addr: 0x10, receive: false });
}

#[test]
fn receive_plan() {
    assert_eq!(
        i2c_receive(0x3C),
        vec![
            BusOp::SetSlaveAddress { addr: 0x3C, receive: true },
            BusOp::Command(0b0111),
            BusOp::WaitTransfer,
            BusOp::ReadData,
        ]
    );
}

#[test]
fn frame_sends_bytes_in_order_with_start_and_stop() {
    let bytes: Vec<FrameByte> = (0u8..5)
        .map(|b| FrameByte { data: b * 7, delay_after_us: 0 })
        .collect();
    let ops = write_frame(0x22, &bytes);
    assert_eq!(sent(&ops), vec![0, 7, 14, 21, 28]);
    assert_eq!(commands(&ops), vec![0b0011, 0b0001, 0b0001, 0b0001, 0b0101]);
}

#[test]
fn frame_delays_follow_their_byte() {
    let bytes = vec![
        FrameByte { data: 9, delay_after_us: 0 },
        FrameByte { data: 8, delay_after_us: 40 },
    ];
    let ops = write_frame(0x01, &bytes);
    assert_eq!(
        ops,
        vec![
            BusOp::SetSlaveAddress { addr: 0x01, receive: false },
            BusOp::WaitBusIdle,
            BusOp::PutData(9),
            BusOp::Command(0b0011),
            BusOp::WaitTransfer,
            BusOp::PutData(8),
            BusOp::Command(0b0101),
            BusOp::WaitTransfer,
            BusOp::DelayUs(40),
        ]
    );
}
