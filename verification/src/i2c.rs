use vstd::prelude::*;

verus! {

/// `I2CMCS` control bit: perform the transfer.
pub const MCS_RUN: u8 = 0b0000_0001;

/// `I2CMCS` control bit: generate a START condition before the transfer.
pub const MCS_START: u8 = 0b0000_0010;

/// `I2CMCS` control bit: generate a STOP condition after the transfer.
pub const MCS_STOP: u8 = 0b0000_0100;

/// One step of an I2C master transaction on the TM4C129 I2C module.
#[derive(Clone, Copy, Debug, PartialEq, Eq, Structural)]
pub enum BusOp {
    /// Write the slave address register (`I2CMSA`): address and direction.
    SetSlaveAddress { addr: u8, receive: bool },
    /// Spin until the bus is no longer busy (`I2CMCS.BUSBSY` clear).
    WaitBusIdle,
    /// Write one byte to the master data register (`I2CMDR`).
    PutData(u8),
    /// Write the master control register (`I2CMCS`).
    Command(u8),
    /// Spin until the controller starts (`BUSY` set) and then ends
    /// (`BUSY` clear) the transfer.
    WaitTransfer,
    /// Read the master data register (`I2CMDR`).
    ReadData,
    /// Busy-wait for the given number of microseconds.
    DelayUs(u32),
}

/// A byte of a write frame, and how long to wait after its transfer ends.
#[derive(Clone, Copy, Debug, PartialEq, Eq, Structural)]
pub struct FrameByte {
    pub data: u8,
    pub delay_after_us: u32,
}

/// The `I2CMCS` value that sends one byte of a write frame: START before the
/// first byte, STOP after the last one, RUN always.
pub open spec fn command_for(first: bool, last: bool) -> u8 {
    if first && last {
        0b0000_0111u8
    } else if first {
        0b0000_0011u8
    } else if last {
        0b0000_0101u8
    } else {
        0b0000_0001u8
    }
}

/// The steps that send one byte of a write frame.
pub open spec fn byte_ops(fb: FrameByte, first: bool, last: bool) -> Seq<BusOp> {
    let transfer = seq![
        BusOp::PutData(fb.data),
        BusOp::Command(command_for(first, last)),
        BusOp::WaitTransfer,
    ];
    if fb.delay_after_us > 0 {
        transfer.push(BusOp::DelayUs(fb.delay_after_us))
    } else {
        transfer
    }
}

/// The steps that send the first `k` bytes of `bytes`, in a frame of
/// `bytes.len()` bytes.
pub open spec fn frame_body(bytes: Seq<FrameByte>, k: nat) -> Seq<BusOp>
    decreases k,
{
    if k == 0 {
        Seq::empty()
    } else {
        frame_body(bytes, (k - 1) as nat) + byte_ops(
            bytes[k - 1],
            k - 1 == 0,
            k - 1 == bytes.len() - 1,
        )
    }
}

/// A whole write frame to the slave at `addr`: address, wait for a free
/// bus, then every byte in order.
pub open spec fn write_frame_spec(addr: u8, bytes: Seq<FrameByte>) -> Seq<BusOp> {
    seq![BusOp::SetSlaveAddress { addr, receive: false }, BusOp::WaitBusIdle] + frame_body(
        bytes,
        bytes.len(),
    )
}

/// The plain bytes of a frame, each sent without a pause after it.
pub open spec fn plain_frame(data: Seq<u8>) -> Seq<FrameByte> {
    Seq::new(data.len(), |i: int| FrameByte { data: data[i], delay_after_us: 0 })
}

/// The `I2CMCS` value for one byte of a write frame.
pub fn frame_command(first: bool, last: bool) -> (c: u8)
    ensures
        c == command_for(first, last),
{
    proof {
        assert(0b010u8 | 0b100u8 | 0b001u8 == 0b111u8) by (bit_vector);
        assert(0b010u8 | 0b001u8 == 0b011u8) by (bit_vector);
        assert(0b100u8 | 0b001u8 == 0b101u8) by (bit_vector);
    }
    if first && last {
        MCS_START | MCS_STOP | MCS_RUN
    } else if first {
        MCS_START | MCS_RUN
    } else if last {
        MCS_STOP | MCS_RUN
    } else {
        MCS_RUN
    }
}

/// Builds the plan of a write frame of `bytes` to the slave at `addr`.
pub fn write_frame(addr: u8, bytes: &Vec<FrameByte>) -> (ops: Vec<BusOp>)
    ensures
        ops@ == write_frame_spec(addr, bytes@),
{
    let mut ops: Vec<BusOp> = Vec::new();
    ops.push(BusOp::SetSlaveAddress { addr, receive: false });
    ops.push(BusOp::WaitBusIdle);
    let n = bytes.len();
    let mut i: usize = 0;
    while i < n
        invariant
            n == bytes.len(),
            i <= n,
            ops@ == seq![BusOp::SetSlaveAddress { addr, receive: false }, BusOp::WaitBusIdle]
                + frame_body(bytes@, i as nat),
        decreases n - i,
    {
        let fb = bytes[i];
        ops.push(BusOp::PutData(fb.data));
        ops.push(BusOp::Command(frame_command(i == 0, i + 1 == n)));
        ops.push(BusOp::WaitTransfer);
        if fb.delay_after_us > 0 {
            ops.push(BusOp::DelayUs(fb.delay_after_us));
        }
        proof {
            let head = seq![BusOp::SetSlaveAddress { addr, receive: false }, BusOp::WaitBusIdle];
            assert(frame_body(bytes@, (i + 1) as nat) == frame_body(bytes@, i as nat) + byte_ops(
                bytes@[i as int],
                i == 0,
                i == n - 1,
            ));
            assert(ops@ =~= head + frame_body(bytes@, (i + 1) as nat));
        }
        i = i + 1;
    }
    ops
}

/// The plan of a write frame that sends `data` with no pause between bytes.
pub open spec fn transmit_spec(addr: u8, data: Seq<u8>) -> Seq<BusOp> {
    write_frame_spec(addr, plain_frame(data))
}

/// Builds the frame of `data`, each byte sent without a pause after it.
fn plain_frame_vec(data: &[u8]) -> (bytes: Vec<FrameByte>)
    ensures
        bytes@ == plain_frame(data@),
{
    let mut bytes: Vec<FrameByte> = Vec::new();
    let mut i: usize = 0;
    while i < data.len()
        invariant
            i <= data.len(),
            bytes@ == plain_frame(data@.take(i as int)),
        decreases data.len() - i,
    {
        bytes.push(FrameByte { data: data[i], delay_after_us: 0 });
        i = i + 1;
        assert(bytes@ =~= plain_frame(data@.take(i as int)));
    }
    assert(data@.take(data.len() as int) =~= data@);
    bytes
}

/// Plan of a one-byte write to the slave at `slave_addr`: a single transfer
/// with START and STOP.
pub fn i2c_transmit(master_data: u8, slave_addr: u8) -> (ops: Vec<BusOp>)
    ensures
        ops@ == transmit_spec(slave_addr, seq![master_data]),
        ops@ == seq![
            BusOp::SetSlaveAddress { addr: slave_addr, receive: false },
            BusOp::WaitBusIdle,
            BusOp::PutData(master_data),
            BusOp::Command(0b0000_0111u8),
            BusOp::WaitTransfer,
        ],
{
    let data = [master_data];
    let bytes = plain_frame_vec(&data);
    let ops = write_frame(slave_addr, &bytes);
    proof {
        assert(data@ =~= seq![master_data]);
        reveal_with_fuel(frame_body, 2);
        assert(ops@ =~= seq![
            BusOp::SetSlaveAddress { addr: slave_addr, receive: false },
            BusOp::WaitBusIdle,
            BusOp::PutData(master_data),
            BusOp::Command(0b0000_0111u8),
            BusOp::WaitTransfer,
        ]);
    }
    ops
}

/// Plan of a two-byte write to the slave at `slave_addr`: START before the
/// first byte, STOP after the second.
pub fn i2c_transmit_2bytes(byte1: u8, byte2: u8, slave_addr: u8) -> (ops: Vec<BusOp>)
    ensures
        ops@ == transmit_spec(slave_addr, seq![byte1, byte2]),
        ops@ == seq![
            BusOp::SetSlaveAddress { addr: slave_addr, receive: false },
            BusOp::WaitBusIdle,
            BusOp::PutData(byte1),
            BusOp::Command(0b0000_0011u8),
            BusOp::WaitTransfer,
            BusOp::PutData(byte2),
            BusOp::Command(0b0000_0101u8),
            BusOp::WaitTransfer,
        ],
{
    let data = [byte1, byte2];
    let bytes = plain_frame_vec(&data);
    let ops = write_frame(slave_addr, &bytes);
    proof {
        assert(data@ =~= seq![byte1, byte2]);
        reveal_with_fuel(frame_body, 3);
        assert(ops@ =~= seq![
            BusOp::SetSlaveAddress { addr: slave_addr, receive: false },
            BusOp::WaitBusIdle,
            BusOp::PutData(byte1),
            BusOp::Command(0b0000_0011u8),
            BusOp::WaitTransfer,
            BusOp::PutData(byte2),
            BusOp::Command(0b0000_0101u8),
            BusOp::WaitTransfer,
        ]);
    }
    ops
}

/// Plan of a three-byte write to the slave at `slave_addr`: START before
/// the first byte, a plain transfer for the second, STOP after the third.
pub fn i2c_transmit_3bytes(byte1: u8, byte2: u8, byte3: u8, slave_addr: u8) -> (ops: Vec<BusOp>)
    ensures
        ops@ == transmit_spec(slave_addr, seq![byte1, byte2, byte3]),
        ops@ == seq![
            BusOp::SetSlaveAddress { addr: slave_addr, receive: false },
            BusOp::WaitBusIdle,
            BusOp::PutData(byte1),
            BusOp::Command(0b0000_0011u8),
            BusOp::WaitTransfer,
            BusOp::PutData(byte2),
            BusOp::Command(0b0000_0001u8),
            BusOp::WaitTransfer,
            BusOp::PutData(byte3),
            BusOp::Command(0b0000_0101u8),
            BusOp::WaitTransfer,
        ],
{
    let data = [byte1, byte2, byte3];
    let bytes = plain_frame_vec(&data);
    let ops = write_frame(slave_addr, &bytes);
    proof {
        assert(data@ =~= seq![byte1, byte2, byte3]);
        reveal_with_fuel(frame_body, 4);
        assert(ops@ =~= seq![
            BusOp::SetSlaveAddress { addr: slave_addr, receive: false },
            BusOp::WaitBusIdle,
            BusOp::PutData(byte1),
            BusOp::Command(0b0000_0011u8),
            BusOp::WaitTransfer,
            BusOp::PutData(byte2),
            BusOp::Command(0b0000_0001u8),
            BusOp::WaitTransfer,
            BusOp::PutData(byte3),
            BusOp::Command(0b0000_0101u8),
            BusOp::WaitTransfer,
        ]);
    }
    ops
}

/// Plan of a single-byte read from the slave at `slave_addr`: address it
/// for receiving, run one transfer with START and STOP, then read the data
/// register, whose value is what the read returns.
pub fn i2c_receive(slave_addr: u8) -> (ops: Vec<BusOp>)
    ensures
        ops@ == seq![
            BusOp::SetSlaveAddress { addr: slave_addr, receive: true },
            BusOp::Command(0b0000_0111u8),
            BusOp::WaitTransfer,
            BusOp::ReadData,
        ],
{
    let mut ops: Vec<BusOp> = Vec::new();
    ops.push(BusOp::SetSlaveAddress { addr: slave_addr, receive: true });
    ops.push(BusOp::Command(frame_command(true, true)));
    ops.push(BusOp::WaitTransfer);
    ops.push(BusOp::ReadData);
    assert(ops@ =~= seq![
        BusOp::SetSlaveAddress { addr: slave_addr, receive: true },
        BusOp::Command(0b0000_0111u8),
        BusOp::WaitTransfer,
        BusOp::ReadData,
    ]);
    ops
}

/// The bytes that a plan writes to the data register, in order.
pub open spec fn sent_bytes(ops: Seq<BusOp>) -> Seq<u8>
    decreases ops.len(),
{
    if ops.len() == 0 {
        Seq::empty()
    } else {
        let rest = sent_bytes(ops.drop_last());
        match ops.last() {
            BusOp::PutData(b) => rest.push(b),
            _ => rest,
        }
    }
}

/// The values that a plan writes to the control register, in order.
pub open spec fn commands(ops: Seq<BusOp>) -> Seq<u8>
    decreases ops.len(),
{
    if ops.len() == 0 {
        Seq::empty()
    } else {
        let rest = commands(ops.drop_last());
        match ops.last() {
            BusOp::Command(c) => rest.push(c),
            _ => rest,
        }
    }
}

/// The data bytes of a frame.
pub open spec fn frame_data(bytes: Seq<FrameByte>) -> Seq<u8> {
    Seq::new(bytes.len(), |i: int| bytes[i].data)
}

/// The control values of a frame of `n` bytes: START on the first, STOP on
/// the last, RUN on every one.
pub open spec fn frame_commands(n: nat) -> Seq<u8> {
    Seq::new(n, |i: int| command_for(i == 0, i == n - 1))
}

/// The data bytes of a concatenation of plans are those of each part.
pub proof fn lemma_sent_bytes_concat(a: Seq<BusOp>, b: Seq<BusOp>)
    ensures
        sent_bytes(a + b) == sent_bytes(a) + sent_bytes(b),
    decreases b.len(),
{
    if b.len() == 0 {
        assert(a + b =~= a);
        assert(sent_bytes(a) + sent_bytes(b) =~= sent_bytes(a));
    } else {
        lemma_sent_bytes_concat(a, b.drop_last());
        assert((a + b).drop_last() =~= a + b.drop_last());
        assert((a + b).last() == b.last());
        match b.last() {
            BusOp::PutData(x) => {
                assert(sent_bytes(a) + sent_bytes(b) =~= (sent_bytes(a) + sent_bytes(
                    b.drop_last(),
                )).push(x));
            },
            _ => {},
        }
    }
}

/// The control values of a concatenation of plans are those of each part.
pub proof fn lemma_commands_concat(a: Seq<BusOp>, b: Seq<BusOp>)
    ensures
        commands(a + b) == commands(a) + commands(b),
    decreases b.len(),
{
    if b.len() == 0 {
        assert(a + b =~= a);
        assert(commands(a) + commands(b) =~= commands(a));
    } else {
        lemma_commands_concat(a, b.drop_last());
        assert((a + b).drop_last() =~= a + b.drop_last());
        assert((a + b).last() == b.last());
        match b.last() {
            BusOp::Command(x) => {
                assert(commands(a) + commands(b) =~= (commands(a) + commands(
                    b.drop_last(),
                )).push(x));
            },
            _ => {},
        }
    }
}

proof fn lemma_byte_ops(fb: FrameByte, first: bool, last: bool)
    ensures
        sent_bytes(byte_ops(fb, first, last)) == seq![fb.data],
        commands(byte_ops(fb, first, last)) == seq![command_for(first, last)],
{
    let t = seq![
        BusOp::PutData(fb.data),
        BusOp::Command(command_for(first, last)),
        BusOp::WaitTransfer,
    ];
    assert(t.drop_last() =~= seq![BusOp::PutData(fb.data), BusOp::Command(command_for(first, last))]);
    assert(t.drop_last().drop_last() =~= seq![BusOp::PutData(fb.data)]);
    assert(t.drop_last().drop_last().drop_last() =~= Seq::<BusOp>::empty());
    reveal_with_fuel(sent_bytes, 4);
    reveal_with_fuel(commands, 4);
    assert(sent_bytes(t) =~= seq![fb.data]);
    assert(commands(t) =~= seq![command_for(first, last)]);
    if fb.delay_after_us > 0 {
        assert(t.push(BusOp::DelayUs(fb.delay_after_us)).drop_last() =~= t);
    }
}

proof fn lemma_frame_body(bytes: Seq<FrameByte>, k: nat)
    requires
        k <= bytes.len(),
    ensures
        sent_bytes(frame_body(bytes, k)) == frame_data(bytes).take(k as int),
        commands(frame_body(bytes, k)) == frame_commands(bytes.len()).take(k as int),
    decreases k,
{
    if k == 0 {
        assert(frame_data(bytes).take(0) =~= Seq::<u8>::empty());
        assert(frame_commands(bytes.len()).take(0) =~= Seq::<u8>::empty());
    } else {
        let j = (k - 1) as nat;
        lemma_frame_body(bytes, j);
        let last_ops = byte_ops(bytes[k - 1], j == 0, j == bytes.len() - 1);
        lemma_byte_ops(bytes[k - 1], j == 0, j == bytes.len() - 1);
        lemma_sent_bytes_concat(frame_body(bytes, j), last_ops);
        lemma_commands_concat(frame_body(bytes, j), last_ops);
        assert(frame_data(bytes).take(k as int) =~= frame_data(bytes).take(j as int) + seq![
            bytes[k - 1].data,
        ]);
        assert(frame_commands(bytes.len()).take(k as int) =~= frame_commands(bytes.len()).take(
            j as int,
        ) + seq![command_for(j == 0, j == bytes.len() - 1)]);
    }
}

/// A write frame puts exactly its bytes on the bus, in order, and frames
/// them with one START before the first byte and one STOP after the last.
pub proof fn lemma_write_frame_bytes_and_framing(addr: u8, bytes: Seq<FrameByte>)
    ensures
        sent_bytes(write_frame_spec(addr, bytes)) == frame_data(bytes),
        commands(write_frame_spec(addr, bytes)) == frame_commands(bytes.len()),
{
    let head = seq![BusOp::SetSlaveAddress { addr, receive: false }, BusOp::WaitBusIdle];
    lemma_frame_body(bytes, bytes.len());
    lemma_sent_bytes_concat(head, frame_body(bytes, bytes.len()));
    lemma_commands_concat(head, frame_body(bytes, bytes.len()));
    assert(head.drop_last() =~= seq![BusOp::SetSlaveAddress { addr, receive: false }]);
    assert(head.drop_last().drop_last() =~= Seq::<BusOp>::empty());
    reveal_with_fuel(sent_bytes, 3);
    reveal_with_fuel(commands, 3);
    assert(sent_bytes(head) =~= Seq::<u8>::empty());
    assert(commands(head) =~= Seq::<u8>::empty());
    assert(frame_data(bytes).take(bytes.len() as int) =~= frame_data(bytes));
    assert(frame_commands(bytes.len()).take(bytes.len() as int) =~= frame_commands(bytes.len()));
    assert(sent_bytes(head) + frame_data(bytes) =~= frame_data(bytes));
    assert(commands(head) + frame_commands(bytes.len()) =~= frame_commands(bytes.len()));
}

/// A plain transmission puts exactly the given bytes on the bus.
pub proof fn lemma_transmit_sends_data(addr: u8, data: Seq<u8>)
    ensures
        sent_bytes(transmit_spec(addr, data)) == data,
        commands(transmit_spec(addr, data)) == frame_commands(data.len()),
{
    lemma_write_frame_bytes_and_framing(addr, plain_frame(data));
    assert(frame_data(plain_frame(data)) =~= data);
}

/// The steps of a plain two-byte frame, written out.
pub proof fn lemma_transmit2_steps(addr: u8, byte1: u8, byte2: u8)
    ensures
        transmit_spec(addr, seq![byte1, byte2]) == seq![
            BusOp::SetSlaveAddress { addr, receive: false },
            BusOp::WaitBusIdle,
            BusOp::PutData(byte1),
            BusOp::Command(0b0000_0011u8),
            BusOp::WaitTransfer,
            BusOp::PutData(byte2),
            BusOp::Command(0b0000_0101u8),
            BusOp::WaitTransfer,
        ],
{
    reveal_with_fuel(frame_body, 3);
    assert(transmit_spec(addr, seq![byte1, byte2]) =~= seq![
        BusOp::SetSlaveAddress { addr, receive: false },
        BusOp::WaitBusIdle,
        BusOp::PutData(byte1),
        BusOp::Command(0b0000_0011u8),
        BusOp::WaitTransfer,
        BusOp::PutData(byte2),
        BusOp::Command(0b0000_0101u8),
        BusOp::WaitTransfer,
    ]);
}

} // verus!
