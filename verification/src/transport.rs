//! Bus transport: framing and chunking of the byte sequences a panel
//! receives.
//!
//! Nothing here touches hardware. Each function produces a plan: the exact
//! ordered list of line changes, chunked writes and pauses that the owner of
//! the physical bus must perform. The chunk size respects the 128-byte
//! maximum transfer size of the underlying serial transport.

use vstd::prelude::*;

verus! {

/// One primitive step on the physical bus. A line payload is the level the
/// line is driven to: `true` is high, `false` is low.
#[derive(Debug, PartialEq, Eq)]
pub enum BusAction {
    /// Drive the chip-select line; low (`false`) addresses the panel.
    ChipSelect(bool),
    /// Drive the data/command select line; low (`false`) marks an opcode,
    /// high (`true`) a payload.
    DataCommand(bool),
    /// Drive the reset line.
    ResetLine(bool),
    /// Write one chunk of bytes on the serial bus.
    WriteBytes(Vec<u8>),
    /// Pause for the given number of milliseconds.
    DelayMs(u64),
}

/// How many chunks a write of `len` bytes takes.
pub open spec fn chunk_count(len: int) -> int {
    (len + 127) / 128
}

/// Where chunk `i` of a write of `len` bytes ends.
pub open spec fn chunk_end(len: int, i: int) -> int {
    if 128 * (i + 1) <= len {
        128 * (i + 1)
    } else {
        len
    }
}

/// Chunk `i` of `data`.
pub open spec fn chunk_of(data: Seq<u8>, i: int) -> Seq<u8> {
    data.subrange(128 * i, chunk_end(data.len() as int, i))
}

/// Does `op` write exactly `bytes`?
pub open spec fn is_write_of(op: BusAction, bytes: Seq<u8>) -> bool {
    op is WriteBytes && op->WriteBytes_0@ == bytes
}

/// A chip-select framed, chunked write of `data`: assert chip-select, write
/// every chunk in order, release chip-select.
pub open spec fn is_transfer_plan(plan: Seq<BusAction>, data: Seq<u8>) -> bool {
    let nc = chunk_count(data.len() as int);
    &&& plan.len() == nc + 2
    &&& plan[0] == BusAction::ChipSelect(false)
    &&& plan[nc + 1] == BusAction::ChipSelect(true)
    &&& forall|i: int| 0 <= i < nc ==> is_write_of(#[trigger] plan[1 + i], chunk_of(data, i))
}

/// Every byte a plan writes on the bus, in order.
pub open spec fn writes_of(plan: Seq<BusAction>) -> Seq<u8>
    decreases plan.len(),
{
    if plan.len() == 0 {
        Seq::empty()
    } else {
        (match plan[0] {
            BusAction::WriteBytes(d) => d@,
            _ => Seq::empty(),
        }) + writes_of(plan.skip(1))
    }
}

/// What a plan of one single action writes.
pub proof fn lemma_writes_of_single(op: BusAction)
    ensures
        writes_of(seq![op]) == (match op {
            BusAction::WriteBytes(d) => d@,
            _ => Seq::<u8>::empty(),
        }),
{
    reveal_with_fuel(writes_of, 2);
    assert(seq![op].skip(1) =~= Seq::<BusAction>::empty());
    assert(writes_of(seq![op]) =~= (match op {
        BusAction::WriteBytes(d) => d@,
        _ => Seq::<u8>::empty(),
    }));
}

/// `writes_of` distributes over concatenation of plans.
pub proof fn lemma_writes_of_append(a: Seq<BusAction>, b: Seq<BusAction>)
    ensures
        writes_of(a + b) == writes_of(a) + writes_of(b),
    decreases a.len(),
{
    if a.len() == 0 {
        assert(a + b =~= b);
        assert(writes_of(a) + writes_of(b) =~= writes_of(b));
    } else {
        assert((a + b).skip(1) =~= a.skip(1) + b);
        lemma_writes_of_append(a.skip(1), b);
        assert((a + b)[0] == a[0]);
        assert(writes_of(a + b) =~= writes_of(a) + writes_of(b));
    }
}

/// Plans the framed, chunked write of `data`: chip-select asserted, `data`
/// written in chunks of at most 128 bytes, chip-select released. The plan
/// writes every byte of `data`, in order, and nothing else.
pub fn spi_transfer(data: &Vec<u8>) -> (plan: Vec<BusAction>)
    requires
        data@.len() + 127 <= usize::MAX,
    ensures
        is_transfer_plan(plan@, data@),
        writes_of(plan@) == data@,
{
    let n: usize = data.len();
    let nchunks: usize = (n + 127) / 128;
    let mut plan: Vec<BusAction> = Vec::new();
    plan.push(BusAction::ChipSelect(false));
    proof {
        assert(plan@ =~= seq![BusAction::ChipSelect(false)]);
        lemma_writes_of_single(BusAction::ChipSelect(false));
        assert(writes_of(plan@) =~= data@.take(0));
    }
    let mut c: usize = 0;
    while c < nchunks
        invariant
            n == data@.len(),
            n + 127 <= usize::MAX,
            nchunks == chunk_count(n as int),
            c <= nchunks,
            plan@.len() == 1 + c,
            plan@[0] == BusAction::ChipSelect(false),
            forall|i: int| 0 <= i < c ==> is_write_of(#[trigger] plan@[1 + i], chunk_of(data@, i)),
            writes_of(plan@) == data@.take(chunk_end(n as int, c - 1)),
        decreases nchunks - c,
    {
        proof {
            assert(128 * c < n) by (nonlinear_arith)
                requires c < nchunks, nchunks == (n + 127) / 128, n >= 0,
            ;
        }
        let start: usize = 128 * c;
        let end: usize = if start + 128 <= n {
            start + 128
        } else {
            n
        };
        let mut chunk: Vec<u8> = Vec::new();
        let mut t: usize = start;
        while t < end
            invariant
                n == data@.len(),
                start <= t <= end,
                end <= n,
                chunk@ == data@.subrange(start as int, t as int),
            decreases end - t,
        {
            chunk.push(data[t]);
            assert(chunk@ =~= data@.subrange(start as int, t + 1));
            t = t + 1;
        }
        let ghost prev = plan@;
        plan.push(BusAction::WriteBytes(chunk));
        proof {
            assert(plan@ =~= prev + seq![plan@[plan@.len() - 1]]);
            lemma_writes_of_append(prev, seq![plan@[plan@.len() - 1]]);
            lemma_writes_of_single(plan@[plan@.len() - 1]);
            assert(writes_of(seq![plan@[plan@.len() - 1]]) =~= data@.subrange(
                start as int, end as int,
            ));
            assert(chunk_end(n as int, c as int) == end);
            assert(data@.take(start as int) + data@.subrange(start as int, end as int)
                =~= data@.take(end as int));
            assert(chunk_end(n as int, c - 1) == start) by (nonlinear_arith)
                requires c < nchunks, nchunks == (n + 127) / 128, n >= 0, start == 128 * c,
            ;
        }
        c = c + 1;
    }
    proof {
        assert(chunk_end(n as int, nchunks - 1) == n) by (nonlinear_arith)
            requires nchunks == (n + 127) / 128, n >= 0,
        ;
        assert(data@.take(n as int) =~= data@);
    }
    let ghost prev = plan@;
    plan.push(BusAction::ChipSelect(true));
    proof {
        assert(plan@ =~= prev + seq![BusAction::ChipSelect(true)]);
        lemma_writes_of_append(prev, seq![BusAction::ChipSelect(true)]);
        lemma_writes_of_single(BusAction::ChipSelect(true));
        assert(writes_of(seq![BusAction::ChipSelect(true)]) =~= Seq::<u8>::empty());
        assert(writes_of(plan@) =~= data@);
    }
    plan
}

/// The plan of `send_command`: data/command low (opcode), then the framed
/// single-byte transfer of the opcode.
pub open spec fn is_send_command_plan(plan: Seq<BusAction>, cmd: u8) -> bool {
    &&& plan.len() == 4
    &&& plan[0] == BusAction::DataCommand(false)
    &&& plan[1] == BusAction::ChipSelect(false)
    &&& is_write_of(plan[2], seq![cmd])
    &&& plan[3] == BusAction::ChipSelect(true)
}

/// The plan of `send_data`: data/command high (payload), then the framed
/// chunked transfer of the payload.
pub open spec fn is_send_data_plan(plan: Seq<BusAction>, data: Seq<u8>) -> bool {
    &&& plan.len() >= 1
    &&& plan[0] == BusAction::DataCommand(true)
    &&& is_transfer_plan(plan.skip(1), data)
}

/// The plan of `send`: the opcode as a command, then the payload as data.
pub open spec fn is_send_plan(plan: Seq<BusAction>, cmd: u8, data: Seq<u8>) -> bool {
    &&& plan.len() == 7 + chunk_count(data.len() as int)
    &&& is_send_command_plan(plan.take(4), cmd)
    &&& is_send_data_plan(plan.skip(4), data)
}

/// Plans the transmission of a single opcode byte, with the data/command
/// line marking it as a command.
pub fn send_command(cmd: u8) -> (plan: Vec<BusAction>)
    ensures
        is_send_command_plan(plan@, cmd),
        writes_of(plan@) == seq![cmd],
{
    let mut opcode: Vec<u8> = Vec::new();
    opcode.push(cmd);
    let mut plan: Vec<BusAction> = Vec::new();
    plan.push(BusAction::DataCommand(false));
    let ghost head = plan@;
    let mut rest = spi_transfer(&opcode);
    let ghost tail = rest@;
    plan.append(&mut rest);
    proof {
        lemma_writes_of_append(head, tail);
        lemma_writes_of_single(BusAction::DataCommand(false));
        assert(head =~= seq![BusAction::DataCommand(false)]);
        assert(opcode@ =~= seq![cmd]);
        assert(chunk_count(1) == 1);
        assert(tail.len() == 3);
        assert(is_write_of(tail[1 + 0int], chunk_of(opcode@, 0)));
        assert(chunk_of(opcode@, 0) =~= seq![cmd]);
        assert(plan@[1] == tail[0] && plan@[2] == tail[1] && plan@[3] == tail[2]);
        assert(writes_of(plan@) =~= seq![cmd]);
    }
    plan
}

/// Plans the transmission of a payload, with the data/command line marking
/// it as data. The plan writes every byte of `data`, in order.
pub fn send_data(data: &Vec<u8>) -> (plan: Vec<BusAction>)
    requires
        data@.len() + 127 <= usize::MAX,
    ensures
        is_send_data_plan(plan@, data@),
        writes_of(plan@) == data@,
{
    let mut plan: Vec<BusAction> = Vec::new();
    plan.push(BusAction::DataCommand(true));
    let ghost head = plan@;
    let mut rest = spi_transfer(data);
    let ghost tail = rest@;
    plan.append(&mut rest);
    proof {
        lemma_writes_of_append(head, tail);
        lemma_writes_of_single(BusAction::DataCommand(true));
        assert(head =~= seq![BusAction::DataCommand(true)]);
        assert(plan@.skip(1) =~= tail);
        assert(writes_of(plan@) =~= data@);
    }
    plan
}

/// Plans one whole panel command: the opcode framed as a command, then the
/// payload framed as data. This is the only entry point panel drivers use.
/// The plan writes the opcode followed by every payload byte, in order.
pub fn send(cmd: u8, data: &Vec<u8>) -> (plan: Vec<BusAction>)
    requires
        data@.len() + 127 <= usize::MAX,
    ensures
        is_send_plan(plan@, cmd, data@),
        writes_of(plan@) == seq![cmd] + data@,
{
    let mut plan = send_command(cmd);
    let ghost head = plan@;
    let mut rest = send_data(data);
    let ghost tail = rest@;
    plan.append(&mut rest);
    proof {
        lemma_writes_of_append(head, tail);
        assert(plan@.take(4) =~= head);
        assert(plan@.skip(4) =~= tail);
        assert(tail.skip(1) =~= plan@.skip(5));
    }
    plan
}

/// Plans the hardware reset pulse: chip-select released, then the reset line
/// driven high, low and high again with the settling pauses the panel needs.
pub fn reset() -> (plan: Vec<BusAction>)
    ensures
        plan@ == seq![
            BusAction::ChipSelect(true),
            BusAction::ResetLine(true),
            BusAction::DelayMs(200u64),
            BusAction::ResetLine(false),
            BusAction::DelayMs(2u64),
            BusAction::ResetLine(true),
            BusAction::DelayMs(200u64),
        ],
{
    let mut plan: Vec<BusAction> = Vec::new();
    plan.push(BusAction::ChipSelect(true));
    plan.push(BusAction::ResetLine(true));
    plan.push(BusAction::DelayMs(200));
    plan.push(BusAction::ResetLine(false));
    plan.push(BusAction::DelayMs(2));
    plan.push(BusAction::ResetLine(true));
    plan.push(BusAction::DelayMs(200));
    proof {
        assert(plan@ =~= seq![
            BusAction::ChipSelect(true),
            BusAction::ResetLine(true),
            BusAction::DelayMs(200u64),
            BusAction::ResetLine(false),
            BusAction::DelayMs(2u64),
            BusAction::ResetLine(true),
            BusAction::DelayMs(200u64),
        ]);
    }
    plan
}

} // verus!
