use vstd::prelude::*;

use crate::command::{command_plan, is_stale, plan_command, write_view, writes_view, Command, RegisterWrite};
use crate::config::{get_orbita_type, poulpe_of, SlaveConfig};
use crate::controller::{
    byte_register_of, get_byte_register, get_pdo_registers, get_status_word, register_bytes,
    status_word_of,
};
use crate::image::copy_bytes;
use crate::engine::{is_slave_ready, PendingWrite};
use crate::state::slave_ready;
use crate::layout::{entry_range, get_reg_addr_range, ByteRange, SlaveOffsets};
use crate::register::{register_name, PdoRegister};

verus! {

/// A queued write as a plain value.
pub open spec fn pending_view(w: PendingWrite) -> (ByteRange, Seq<u8>) {
    (w.range, w.bytes@)
}

pub open spec fn pendings_view(ws: Seq<PendingWrite>) -> Seq<(ByteRange, Seq<u8>)> {
    ws.map_values(|w: PendingWrite| pending_view(w))
}

/// The byte range of replica `index` of `reg` on slave `slave`, if the layout has it.
pub open spec fn register_range(offsets: &SlaveOffsets, slave: int, reg: PdoRegister, index: int) -> Option<ByteRange> {
    let entries = offsets.entries(slave, register_name(reg));
    if 0 <= index < entries.len() {
        Some(entry_range(entries[index]))
    } else {
        None
    }
}

/// The queued writes of register writes on a slave, in order; a write to a
/// replica the layout lacks is left out.
pub open spec fn pendings_of(offsets: &SlaveOffsets, slave: int, ws: Seq<(PdoRegister, usize, Seq<u8>)>) -> Seq<
    (ByteRange, Seq<u8>),
>
    decreases ws.len(),
{
    if ws.len() == 0 {
        seq![]
    } else {
        let prev = pendings_of(offsets, slave, ws.drop_last());
        let w = ws.last();
        match register_range(offsets, slave, w.0, w.1 as int) {
            Some(r) => prev.push((r, w.2)),
            None => prev,
        }
    }
}

/// The write fits its replica's byte range: the same number of bytes, or a
/// replica the layout lacks (the write is then left out).
pub open spec fn write_fits(offsets: &SlaveOffsets, slave: int, w: (PdoRegister, usize, Seq<u8>)) -> bool {
    match register_range(offsets, slave, w.0, w.1 as int) {
        Some(r) => r.start <= r.end && w.2.len() == r.end - r.start,
        None => true,
    }
}

/// Every write fits its replica's byte range.
pub open spec fn writes_fit(offsets: &SlaveOffsets, slave: int, ws: Seq<(PdoRegister, usize, Seq<u8>)>) -> bool {
    forall|k: int| 0 <= k < ws.len() ==> #[trigger] write_fits(offsets, slave, ws[k])
}

/// Turns register writes on a slave into queued image writes, or refuses
/// them all (`None`) when one of them does not fit its byte range.
pub fn to_pending_writes(offsets: &SlaveOffsets, slave_id: u16, writes: &Vec<RegisterWrite>) -> (r: Option<Vec<
    PendingWrite,
>>)
    requires
        offsets.wf(),
    ensures
        r is Some <==> writes_fit(offsets, slave_id as int, writes_view(writes@)),
        r matches Some(v) ==> pendings_view(v@) == pendings_of(offsets, slave_id as int, writes_view(writes@)),
{
    let mut out: Vec<PendingWrite> = Vec::new();
    let mut k: usize = 0;
    while k < writes.len()
        invariant
            offsets.wf(),
            k <= writes@.len(),
            pendings_view(out@) == pendings_of(
                offsets,
                slave_id as int,
                writes_view(writes@.subrange(0, k as int)),
            ),
            forall|j: int| 0 <= j < k ==> #[trigger] write_fits(offsets, slave_id as int, writes_view(writes@)[j]),
        decreases writes@.len() - k,
    {
        let w = &writes[k];
        let name = w.register.name().to_owned();
        let ghost before = out@;
        proof {
            let pre = writes_view(writes@.subrange(0, k + 1));
            assert(pre.drop_last() =~= writes_view(writes@.subrange(0, k as int)));
            assert(pre.last() == write_view(writes@[k as int]));
        }
        match get_reg_addr_range(offsets, slave_id, &name, w.index) {
            Some(range) => {
                if range.start > range.end || w.bytes.len() != range.end - range.start {
                    assert(!write_fits(offsets, slave_id as int, writes_view(writes@)[k as int]));
                    return None;
                }
                out.push(PendingWrite { range, bytes: copy_bytes(&w.bytes) });
                proof {
                    assert(pendings_view(out@) =~= pendings_view(before).push((range, w.bytes@)));
                }
            },
            None => {},
        }
        k = k + 1;
    }
    proof {
        assert(writes@.subrange(0, k as int) =~= writes@);
    }
    Some(out)
}

/// The actual-position replicas of a slave in a snapshot, or none if one
/// of them cannot be read.
pub open spec fn actual_positions_of(offsets: &SlaveOffsets, snapshot: Seq<u8>, slave: int) -> Seq<Seq<u8>> {
    let n = offsets.entries(slave, register_name(PdoRegister::PositionActualValue)).len();
    if forall|k: int|
        0 <= k < n ==> #[trigger] register_bytes(
            offsets,
            snapshot,
            slave,
            PdoRegister::PositionActualValue,
            k,
        ) is Some {
        Seq::new(
            n,
            |k: int|
                register_bytes(offsets, snapshot, slave, PdoRegister::PositionActualValue, k).unwrap(),
        )
    } else {
        seq![]
    }
}

/// The image writes that one received command leads to: none when its slave
/// id is out of range, not ready or without a configured axis count, when
/// the command is dropped, or when one of its writes does not fit its byte
/// range; else its planned register writes on that slave.
pub open spec fn command_pendings(
    config: Seq<SlaveConfig>,
    offsets: &SlaveOffsets,
    snapshot: Seq<u8>,
    slave_states: Seq<u8>,
    cmd: Command,
    now_us: u64,
    drop_us: u32,
) -> Seq<(ByteRange, Seq<u8>)> {
    if !slave_ready(slave_states, cmd.id) {
        seq![]
    } else {
        let slave = cmd.id as u16;
        match poulpe_of(config, slave) {
            None => seq![],
            Some(p) => match command_plan(
                cmd,
                now_us,
                drop_us,
                p.orbita_type as nat,
                status_word_of(offsets, snapshot, slave as int),
                match byte_register_of(
                    offsets,
                    snapshot,
                    slave as int,
                    PdoRegister::ModeOfOperationDisplay,
                ) {
                    Some(m) => m,
                    None => 0,
                },
                actual_positions_of(offsets, snapshot, slave as int),
            ) {
                Ok(ws) => if writes_fit(offsets, slave as int, ws) {
                    pendings_of(offsets, slave as int, ws)
                } else {
                    seq![]
                },
                Err(_) => seq![],
            },
        }
    }
}

/// The image writes of the first `n` commands of a batch, in order.
pub open spec fn batch_pendings(
    config: Seq<SlaveConfig>,
    offsets: &SlaveOffsets,
    snapshot: Seq<u8>,
    slave_states: Seq<u8>,
    batch: Seq<Command>,
    now_us: u64,
    drop_us: u32,
    n: nat,
) -> Seq<(ByteRange, Seq<u8>)>
    decreases n,
{
    if n == 0 || n > batch.len() {
        seq![]
    } else {
        batch_pendings(config, offsets, snapshot, slave_states, batch, now_us, drop_us, (n - 1) as nat)
            + command_pendings(config, offsets, snapshot, slave_states, batch[n - 1], now_us, drop_us)
    }
}

fn command_writes(
    config: &Vec<SlaveConfig>,
    offsets: &SlaveOffsets,
    snapshot: &Vec<u8>,
    slave_states: &Vec<u8>,
    cmd: &Command,
    now_us: u64,
    command_drop_time_us: u32,
) -> (r: Vec<PendingWrite>)
    requires
        offsets.wf(),
    ensures
        pendings_view(r@) == command_pendings(
            config@,
            offsets,
            snapshot@,
            slave_states@,
            *cmd,
            now_us,
            command_drop_time_us,
        ),
{
    let empty: Vec<PendingWrite> = Vec::new();
    proof {
        assert(pendings_view(empty@) =~= Seq::<(ByteRange, Seq<u8>)>::empty());
    }
    if cmd.id < 0 || cmd.id > 65535 {
        return empty;
    }
    let slave = cmd.id as u16;
    if !is_slave_ready(slave_states, slave) {
        return empty;
    }
    let axes = match get_orbita_type(config, slave) {
        None => {
            return empty;
        },
        Some(a) => a,
    };
    let status = get_status_word(offsets, snapshot, slave);
    let mode_display = match get_byte_register(
        offsets,
        snapshot,
        slave,
        PdoRegister::ModeOfOperationDisplay,
    ) {
        Some(m) => m,
        None => 0,
    };
    let read = get_pdo_registers(offsets, snapshot, slave, PdoRegister::PositionActualValue);
    let ghost want = actual_positions_of(offsets, snapshot@, slave as int);
    let actual: Vec<Vec<u8>> = match read {
        Some(v) => {
            proof {
                let n = offsets.entries(slave as int, register_name(PdoRegister::PositionActualValue)).len();
                assert forall|k: int| 0 <= k < n implies #[trigger] register_bytes(
                    offsets,
                    snapshot@,
                    slave as int,
                    PdoRegister::PositionActualValue,
                    k,
                ) is Some by {
                    assert(register_bytes(offsets, snapshot@, slave as int, PdoRegister::PositionActualValue, k)
                        == Some(v@[k]@));
                }
                assert(v@.map_values(|b: Vec<u8>| b@) =~= want);
            }
            v
        },
        None => {
            let e: Vec<Vec<u8>> = Vec::new();
            proof {
                assert(e@.map_values(|b: Vec<u8>| b@) =~= want);
            }
            e
        },
    };
    match plan_command(cmd, now_us, command_drop_time_us, axes as usize, status, mode_display, &actual) {
        Err(_) => empty,
        Ok(ws) => match to_pending_writes(offsets, slave, &ws) {
            Some(v) => v,
            None => empty,
        },
    }
}

/// Handles one received batch of commands against the latest snapshot: the
/// image writes to queue, in order. A command whose slave is not ready is
/// dropped.
pub fn handle_command_batch(
    config: &Vec<SlaveConfig>,
    offsets: &SlaveOffsets,
    snapshot: &Vec<u8>,
    slave_states: &Vec<u8>,
    batch: &Vec<Command>,
    now_us: u64,
    command_drop_time_us: u32,
) -> (r: Vec<PendingWrite>)
    requires
        offsets.wf(),
    ensures
        pendings_view(r@) == batch_pendings(
            config@,
            offsets,
            snapshot@,
            slave_states@,
            batch@,
            now_us,
            command_drop_time_us,
            batch@.len(),
        ),
{
    let mut out: Vec<PendingWrite> = Vec::new();
    let mut k: usize = 0;
    proof {
        assert(pendings_view(out@) =~= Seq::<(ByteRange, Seq<u8>)>::empty());
    }
    while k < batch.len()
        invariant
            offsets.wf(),
            k <= batch@.len(),
            pendings_view(out@) == batch_pendings(
                config@,
                offsets,
                snapshot@,
                slave_states@,
                batch@,
                now_us,
                command_drop_time_us,
                k as nat,
            ),
        decreases batch@.len() - k,
    {
        let mut more = command_writes(config, offsets, snapshot, slave_states, &batch[k], now_us, command_drop_time_us);
        let ghost before = pendings_view(out@);
        let ghost added = pendings_view(more@);
        out.append(&mut more);
        proof {
            assert(pendings_view(out@) =~= before + added);
        }
        k = k + 1;
    }
    out
}

/// A batch whose commands are all older than the drop time on arrival
/// writes nothing to the image.
pub proof fn lemma_stale_batch_writes_nothing(
    config: Seq<SlaveConfig>,
    offsets: &SlaveOffsets,
    snapshot: Seq<u8>,
    slave_states: Seq<u8>,
    batch: Seq<Command>,
    now_us: u64,
    drop_us: u32,
    n: nat,
)
    requires
        n <= batch.len(),
        forall|k: int|
            0 <= k < batch.len() ==> is_stale(#[trigger] batch[k], now_us, drop_us),
    ensures
        batch_pendings(config, offsets, snapshot, slave_states, batch, now_us, drop_us, n) == Seq::<
            (ByteRange, Seq<u8>),
        >::empty(),
    decreases n,
{
    if n > 0 {
        lemma_stale_batch_writes_nothing(config, offsets, snapshot, slave_states, batch, now_us, drop_us, (n - 1) as nat);
        let cmd = batch[n - 1];
        assert(is_stale(cmd, now_us, drop_us));
        assert(command_pendings(config, offsets, snapshot, slave_states, cmd, now_us, drop_us) =~= Seq::<
            (ByteRange, Seq<u8>),
        >::empty());
        assert(batch_pendings(config, offsets, snapshot, slave_states, batch, now_us, drop_us, n) =~= Seq::<
            (ByteRange, Seq<u8>),
        >::empty());
    }
}

} // verus!
