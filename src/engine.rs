use vstd::prelude::*;

use crate::image::{apply_write, copy_bytes, range_fits, write_applies, write_range};
use crate::layout::{entry_range, ByteRange, PdoEntry, SlaveOffsets};
use crate::mailboxes::{
    init_mailbox_pdo_verification, mailbox_ranges, mailbox_step, restore_ranges, restored_image,
    verify_mailbox_pdos,
};
use crate::watchdog::{
    init_watchdog_settings, is_control_byte, ranges_fit, stamped_image, verify_watchdog, watchdog_observe,
    status_counter,
};

verus! {

/// The AL state of a slave (or of the whole bus) that is operational.
pub const AL_STATE_OP: u8 = 8;

/// The per-slave state published when a slave could not be queried.
pub const SLAVE_STATE_UNKNOWN: u8 = 255;

/// A write queued for the image: `bytes` over `range`.
#[derive(Debug, Clone)]
pub struct PendingWrite {
    pub range: ByteRange,
    pub bytes: Vec<u8>,
}

/// The image after the writes are applied one after the other, in queue order.
pub open spec fn apply_writes(data: Seq<u8>, writes: Seq<PendingWrite>) -> Seq<u8>
    decreases writes.len(),
{
    if writes.len() == 0 {
        data
    } else {
        let w = writes.last();
        apply_write(apply_writes(data, writes.drop_last()), w.range, w.bytes@)
    }
}

/// The write takes effect on an image of `len` bytes and covers byte `p`.
pub open spec fn write_covers(w: PendingWrite, len: nat, p: int) -> bool {
    range_fits(w.range, len) && w.bytes@.len() == w.range.end - w.range.start && w.range.start <= p
        < w.range.end
}

proof fn lemma_apply_write_len(data: Seq<u8>, r: ByteRange, bytes: Seq<u8>)
    ensures
        apply_write(data, r, bytes).len() == data.len(),
        forall|p: int|
            0 <= p < data.len() ==> #[trigger] apply_write(data, r, bytes)[p] == if write_applies(
                data,
                r,
                bytes,
            ) && r.start <= p < r.end {
                bytes[p - r.start]
            } else {
                data[p]
            },
{
}

proof fn lemma_apply_writes_len(data: Seq<u8>, writes: Seq<PendingWrite>)
    ensures
        apply_writes(data, writes).len() == data.len(),
    decreases writes.len(),
{
    if writes.len() > 0 {
        lemma_apply_writes_len(data, writes.drop_last());
        let w = writes.last();
        lemma_apply_write_len(apply_writes(data, writes.drop_last()), w.range, w.bytes@);
    }
}

/// Writes are applied in queue order, so of two queued writes that cover the
/// same byte the later one decides it: the byte ends up holding what the
/// last write covering it carries.
pub proof fn lemma_last_write_wins(data: Seq<u8>, writes: Seq<PendingWrite>, k: int, p: int)
    requires
        0 <= k < writes.len(),
        write_covers(writes[k], data.len(), p),
        forall|j: int| k < j < writes.len() ==> !write_covers(#[trigger] writes[j], data.len(), p),
    ensures
        apply_writes(data, writes)[p] == writes[k].bytes@[p - writes[k].range.start],
    decreases writes.len(),
{
    let prefix = writes.drop_last();
    let w = writes.last();
    lemma_apply_writes_len(data, prefix);
    let d = apply_writes(data, prefix);
    lemma_apply_write_len(d, w.range, w.bytes@);
    if k < writes.len() - 1 {
        assert forall|j: int| k < j < prefix.len() implies !write_covers(
            #[trigger] prefix[j],
            data.len(),
            p,
        ) by {
            assert(prefix[j] == writes[j]);
        }
        assert(prefix[k] == writes[k]);
        lemma_last_write_wins(data, prefix, k, p);
        assert(!write_covers(writes[writes.len() - 1], data.len(), p));
    }
}

/// A byte that no queued write covers keeps its value.
pub proof fn lemma_uncovered_byte_kept(data: Seq<u8>, writes: Seq<PendingWrite>, p: int)
    requires
        0 <= p < data.len(),
        forall|j: int| 0 <= j < writes.len() ==> !write_covers(#[trigger] writes[j], data.len(), p),
    ensures
        apply_writes(data, writes)[p] == data[p],
    decreases writes.len(),
{
    if writes.len() > 0 {
        let prefix = writes.drop_last();
        assert forall|j: int| 0 <= j < prefix.len() implies !write_covers(
            #[trigger] prefix[j],
            data.len(),
            p,
        ) by {
            assert(prefix[j] == writes[j]);
        }
        lemma_uncovered_byte_kept(data, prefix, p);
        lemma_apply_writes_len(data, prefix);
        let w = writes.last();
        lemma_apply_write_len(apply_writes(data, prefix), w.range, w.bytes@);
        assert(!write_covers(writes[writes.len() - 1], data.len(), p));
    }
}

/// Applies queued writes to the image in queue order; a write whose range
/// does not lie in the image or whose length differs is skipped.
pub fn apply_commands(data: &mut Vec<u8>, commands: &Vec<PendingWrite>)
    ensures
        final(data)@ == apply_writes(old(data)@, commands@),
{
    let ghost orig = data@;
    let mut k: usize = 0;
    while k < commands.len()
        invariant
            k <= commands@.len(),
            data@ == apply_writes(orig, commands@.subrange(0, k as int)),
        decreases commands@.len() - k,
    {
        write_range(data, commands[k].range, &commands[k].bytes);
        proof {
            let next = commands@.subrange(0, k + 1);
            assert(next.drop_last() =~= commands@.subrange(0, k as int));
            assert(next.last() == commands@[k as int]);
        }
        k = k + 1;
    }
    proof {
        assert(commands@.subrange(0, k as int) =~= commands@);
    }
}

/// What the bus reports after a frame is sent.
#[derive(Debug, Clone, Copy, PartialEq, Eq, Structural)]
pub struct BusStatus {
    pub link_up: bool,
    pub al_states: u8,
    pub slaves_responding: u32,
}

/// The master may command the slaves: the link is up, the bus is
/// operational, every slave answers, and no liveness check has failed.
pub open spec fn ready_conditions(
    bus: BusStatus,
    slave_number: u32,
    mailbox_fresh: bool,
    watchdog_fresh: bool,
) -> bool {
    bus.link_up && bus.al_states == AL_STATE_OP && bus.slaves_responding == slave_number
        && mailbox_fresh && watchdog_fresh
}

/// The state published for one slave: zero when a liveness check failed or
/// the slave is not operational, `SLAVE_STATE_UNKNOWN` when it could not be
/// queried, and `AL_STATE_OP` when it is operational.
pub open spec fn slave_state_of(mailbox_fresh: bool, watchdog_fresh: bool, al_state: Option<u8>) -> u8 {
    if !mailbox_fresh || !watchdog_fresh {
        0
    } else {
        match al_state {
            None => SLAVE_STATE_UNKNOWN,
            Some(a) => if a == AL_STATE_OP {
                AL_STATE_OP
            } else {
                0
            },
        }
    }
}

pub fn get_slave_current_state(mailbox_fresh: bool, watchdog_fresh: bool, al_state: Option<u8>) -> (r:
    u8)
    ensures
        r == slave_state_of(mailbox_fresh, watchdog_fresh, al_state),
{
    if !mailbox_fresh || !watchdog_fresh {
        return 0;
    }
    match al_state {
        None => SLAVE_STATE_UNKNOWN,
        Some(a) => if a == AL_STATE_OP {
            AL_STATE_OP
        } else {
            0
        },
    }
}

/// A slave counts as responding only when it is operational and both
/// liveness checks pass.
pub proof fn lemma_composite_responding(mailbox_fresh: bool, watchdog_fresh: bool, al_state: Option<u8>)
    ensures
        slave_state_of(mailbox_fresh, watchdog_fresh, al_state) == AL_STATE_OP ==> al_state == Some(
            AL_STATE_OP,
        ) && mailbox_fresh && watchdog_fresh,
{
}

/// Whether the published states say that slave `slave_id` is operational.
pub fn is_slave_ready(states: &Vec<u8>, slave_id: u16) -> (r: bool)
    ensures
        r == ((slave_id as int) < states@.len() && states@[slave_id as int] == AL_STATE_OP),
{
    if (slave_id as usize) < states.len() {
        states[slave_id as usize] == AL_STATE_OP
    } else {
        false
    }
}

/// Whether every range of every slave lies inside an image of `len` bytes.
pub fn check_ranges_fit(offs: &Vec<Vec<ByteRange>>, len: usize) -> (r: bool)
    ensures
        r == ranges_fit(offs@, len as nat),
{
    let mut i: usize = 0;
    while i < offs.len()
        invariant
            i <= offs@.len(),
            forall|a: int, k: int|
                0 <= a < i && 0 <= k < offs@[a]@.len() ==> #[trigger] offs@[a]@[k].start
                    <= offs@[a]@[k].end && offs@[a]@[k].end <= len,
        decreases offs@.len() - i,
    {
        let ranges = &offs[i];
        let mut k: usize = 0;
        while k < ranges.len()
            invariant
                i < offs@.len(),
                ranges@ == offs@[i as int]@,
                k <= ranges@.len(),
                forall|a: int, b: int|
                    0 <= a < i && 0 <= b < offs@[a]@.len() ==> #[trigger] offs@[a]@[b].start
                        <= offs@[a]@[b].end && offs@[a]@[b].end <= len,
                forall|b: int|
                    0 <= b < k ==> #[trigger] offs@[i as int]@[b].start <= offs@[i as int]@[b].end
                        && offs@[i as int]@[b].end <= len,
            decreases ranges@.len() - k,
        {
            if ranges[k].start > ranges[k].end || ranges[k].end > len {
                proof {
                    assert(!(offs@[i as int]@[k as int].start <= offs@[i as int]@[k as int].end
                        && offs@[i as int]@[k as int].end <= len));
                }
                return false;
            }
            k = k + 1;
        }
        proof {
            assert forall|a: int, b: int|
                0 <= a < i + 1 && 0 <= b < offs@[a]@.len() implies #[trigger] offs@[a]@[b].start
                <= offs@[a]@[b].end && offs@[a]@[b].end <= len by {
                if a == i as int {
                    assert(offs@[i as int]@[b].start <= offs@[i as int]@[b].end);
                }
            }
        }
        i = i + 1;
    }
    true
}

/// The cyclic engine's own state: liveness records of every slave, the
/// outgoing heartbeat counter, and whether the master is operational.
pub struct CycleEngine {
    pub slave_number: u32,
    pub image_len: usize,
    pub mailbox_check: bool,
    pub watchdog_check: bool,
    pub mailbox_wait_time_ms: u32,
    pub watchdog_timeout_ms: u32,
    pub mailbox_offsets: Vec<Vec<ByteRange>>,
    pub mailbox_timestamps: Vec<u64>,
    pub mailbox_responding: Vec<bool>,
    pub mailbox_buffer: Vec<Vec<Vec<u8>>>,
    pub watchdog_control_offsets: Vec<Vec<ByteRange>>,
    pub watchdog_status_offsets: Vec<Vec<ByteRange>>,
    pub watchdog_timestamps: Vec<u64>,
    pub watchdog_responding: Vec<bool>,
    pub watchdog_previous: Vec<u8>,
    pub watchdog_counter: u8,
    pub mailbox_fresh: bool,
    pub watchdog_fresh: bool,
    pub operational: bool,
}

/// The image handed to the bus: the snapshot, then the queued writes when
/// the master is operational, then the heartbeat counter when the watchdog is on.
pub open spec fn outgoing_image(
    snapshot: Seq<u8>,
    operational: bool,
    commands: Seq<PendingWrite>,
    watchdog_check: bool,
    control_offsets: Seq<Vec<ByteRange>>,
    counter: u8,
) -> Seq<u8> {
    let after_commands = if operational {
        apply_writes(snapshot, commands)
    } else {
        snapshot
    };
    if watchdog_check {
        stamped_image(after_commands, control_offsets, counter)
    } else {
        after_commands
    }
}

/// The mailbox-entry names of slave `i`, none for a slave without a list.
pub open spec fn mailbox_names(mailbox_pdo_entries: Seq<Vec<String>>, i: int) -> Seq<String> {
    if i < mailbox_pdo_entries.len() {
        mailbox_pdo_entries[i]@
    } else {
        seq![]
    }
}

/// Every range lies inside an image of `len` bytes.
pub open spec fn seq_fits(ranges: Seq<ByteRange>, len: nat) -> bool {
    forall|k: int| 0 <= k < ranges.len() ==> range_fits(#[trigger] ranges[k], len)
}

/// The mailbox, control-word and status-word ranges of the first `n`
/// slaves of the layout lie inside an image of `len` bytes.
pub open spec fn layout_fits(
    offsets: &SlaveOffsets,
    mailbox_pdo_entries: Seq<Vec<String>>,
    n: nat,
    len: nat,
) -> bool {
    forall|i: int|
        0 <= i < n ==> seq_fits(
            #[trigger] mailbox_ranges(offsets, i, mailbox_names(mailbox_pdo_entries, i)),
            len,
        ) && seq_fits(
            offsets.entries(i, "controlword"@).map_values(|e: PdoEntry| entry_range(e)),
            len,
        ) && seq_fits(
            offsets.entries(i, "statusword"@).map_values(|e: PdoEntry| entry_range(e)),
            len,
        )
}

impl CycleEngine {
    pub open spec fn wf(&self) -> bool {
        &&& self.mailbox_offsets@.len() == self.slave_number
        &&& self.mailbox_timestamps@.len() == self.slave_number
        &&& self.mailbox_responding@.len() == self.slave_number
        &&& self.mailbox_buffer@.len() == self.slave_number
        &&& self.watchdog_control_offsets@.len() == self.slave_number
        &&& self.watchdog_status_offsets@.len() == self.slave_number
        &&& self.watchdog_timestamps@.len() == self.slave_number
        &&& self.watchdog_responding@.len() == self.slave_number
        &&& self.watchdog_previous@.len() == self.slave_number
        &&& ranges_fit(self.mailbox_offsets@, self.image_len as nat)
        &&& ranges_fit(self.watchdog_control_offsets@, self.image_len as nat)
        &&& ranges_fit(self.watchdog_status_offsets@, self.image_len as nat)
        &&& self.watchdog_counter < 8
    }

    /// Sets up the engine for a bus of `slave_number` slaves and an image of
    /// `image_len` bytes, or `None` when some mailbox, control-word or
    /// status-word range of the layout lies outside the image. The master
    /// starts not operational, every slave responding, counter zero.
    pub fn new(
        slave_number: u32,
        image_len: usize,
        offsets: &SlaveOffsets,
        mailbox_pdo_entries: &Vec<Vec<String>>,
        mailbox_check: bool,
        watchdog_check: bool,
        mailbox_wait_time_ms: u32,
        watchdog_timeout_ms: u32,
        now_us: u64,
    ) -> (r: Option<CycleEngine>)
        requires
            offsets.wf(),
            slave_number <= u16::MAX,
        ensures
            r is Some <==> layout_fits(offsets, mailbox_pdo_entries@, slave_number as nat, image_len as nat),
            r matches Some(e) ==> {
                &&& e.wf()
                &&& e.slave_number == slave_number
                &&& e.image_len == image_len
                &&& e.mailbox_check == mailbox_check
                &&& e.watchdog_check == watchdog_check
                &&& e.mailbox_wait_time_ms == mailbox_wait_time_ms
                &&& e.watchdog_timeout_ms == watchdog_timeout_ms
                &&& !e.operational
                &&& e.watchdog_counter == 0
            },
    {
        let (mailbox_offsets, mailbox_timestamps, mailbox_responding, mailbox_buffer) =
            init_mailbox_pdo_verification(slave_number, mailbox_pdo_entries, offsets, now_us);
        let (
            watchdog_control_offsets,
            watchdog_status_offsets,
            watchdog_timestamps,
            watchdog_responding,
            watchdog_previous,
        ) = init_watchdog_settings(slave_number, offsets, now_us);
        let fits = check_ranges_fit(&mailbox_offsets, image_len) && check_ranges_fit(
            &watchdog_control_offsets,
            image_len,
        ) && check_ranges_fit(&watchdog_status_offsets, image_len);
        proof {
            let n = slave_number as nat;
            let len = image_len as nat;
            assert forall|i: int| 0 <= i < n implies #[trigger] mailbox_ranges(
                offsets,
                i,
                mailbox_names(mailbox_pdo_entries@, i),
            ) == mailbox_offsets@[i]@ && offsets.entries(i, "controlword"@).map_values(
                |e: PdoEntry| entry_range(e),
            ) == watchdog_control_offsets@[i]@ && offsets.entries(i, "statusword"@).map_values(
                |e: PdoEntry| entry_range(e),
            ) == watchdog_status_offsets@[i]@ by {}
            let all = ranges_fit(mailbox_offsets@, len) && ranges_fit(watchdog_control_offsets@, len)
                && ranges_fit(watchdog_status_offsets@, len);
            if all {
                assert forall|i: int| 0 <= i < n implies seq_fits(
                    #[trigger] mailbox_ranges(offsets, i, mailbox_names(mailbox_pdo_entries@, i)),
                    len,
                ) && seq_fits(
                    offsets.entries(i, "controlword"@).map_values(|e: PdoEntry| entry_range(e)),
                    len,
                ) && seq_fits(
                    offsets.entries(i, "statusword"@).map_values(|e: PdoEntry| entry_range(e)),
                    len,
                ) by {
                    assert forall|k: int| 0 <= k < mailbox_offsets@[i]@.len() implies range_fits(
                        #[trigger] mailbox_offsets@[i]@[k],
                        len,
                    ) by {
                        assert(mailbox_offsets@[i]@[k].start <= mailbox_offsets@[i]@[k].end);
                    }
                    assert forall|k: int| 0 <= k < watchdog_control_offsets@[i]@.len() implies range_fits(
                        #[trigger] watchdog_control_offsets@[i]@[k],
                        len,
                    ) by {
                        assert(watchdog_control_offsets@[i]@[k].start <= watchdog_control_offsets@[i]@[k].end);
                    }
                    assert forall|k: int| 0 <= k < watchdog_status_offsets@[i]@.len() implies range_fits(
                        #[trigger] watchdog_status_offsets@[i]@[k],
                        len,
                    ) by {
                        assert(watchdog_status_offsets@[i]@[k].start <= watchdog_status_offsets@[i]@[k].end);
                    }
                }
            } else if layout_fits(offsets, mailbox_pdo_entries@, n, len) {
                assert forall|i: int, k: int|
                    0 <= i < mailbox_offsets@.len() && 0 <= k < mailbox_offsets@[i]@.len() implies #[trigger] mailbox_offsets@[i]@[k].start
                    <= mailbox_offsets@[i]@[k].end && mailbox_offsets@[i]@[k].end <= len by {
                    assert(seq_fits(mailbox_ranges(offsets, i, mailbox_names(mailbox_pdo_entries@, i)), len));
                    assert(range_fits(mailbox_offsets@[i]@[k], len));
                }
                assert forall|i: int, k: int|
                    0 <= i < watchdog_control_offsets@.len() && 0 <= k < watchdog_control_offsets@[i]@.len() implies #[trigger] watchdog_control_offsets@[i]@[k].start
                    <= watchdog_control_offsets@[i]@[k].end && watchdog_control_offsets@[i]@[k].end <= len by {
                    assert(seq_fits(mailbox_ranges(offsets, i, mailbox_names(mailbox_pdo_entries@, i)), len));
                    assert(range_fits(watchdog_control_offsets@[i]@[k], len));
                }
                assert forall|i: int, k: int|
                    0 <= i < watchdog_status_offsets@.len() && 0 <= k < watchdog_status_offsets@[i]@.len() implies #[trigger] watchdog_status_offsets@[i]@[k].start
                    <= watchdog_status_offsets@[i]@[k].end && watchdog_status_offsets@[i]@[k].end <= len by {
                    assert(seq_fits(mailbox_ranges(offsets, i, mailbox_names(mailbox_pdo_entries@, i)), len));
                    assert(range_fits(watchdog_status_offsets@[i]@[k], len));
                }
            }
        }
        if !fits {
            return None;
        }
        Some(
            CycleEngine {
                slave_number,
                image_len,
                mailbox_check,
                watchdog_check,
                mailbox_wait_time_ms,
                watchdog_timeout_ms,
                mailbox_offsets,
                mailbox_timestamps,
                mailbox_responding,
                mailbox_buffer,
                watchdog_control_offsets,
                watchdog_status_offsets,
                watchdog_timestamps,
                watchdog_responding,
                watchdog_previous,
                watchdog_counter: 0,
                mailbox_fresh: true,
                watchdog_fresh: true,
                operational: false,
            },
        )
    }

    /// The work of one tick between receiving a frame and sending it.
    ///
    /// With the mailbox check on, the mailbox records are updated and the
    /// cached payloads written back. The image is then copied out as the
    /// snapshot that readers get. When the master is operational the queued
    /// writes are applied in queue order; otherwise none is. With the watchdog
    /// on, the records are updated from the returned counters and the
    /// outgoing counter is written into every control word; the counter then
    /// advances modulo 8.
    pub fn process_frame(&mut self, data: &mut Vec<u8>, now_us: u64, commands: &Vec<PendingWrite>) -> (snapshot: Vec<u8>)
        requires
            old(self).wf(),
            old(data)@.len() == old(self).image_len,
        ensures
            final(self).wf(),
            final(self).slave_number == old(self).slave_number,
            final(self).image_len == old(self).image_len,
            final(self).mailbox_check == old(self).mailbox_check,
            final(self).watchdog_check == old(self).watchdog_check,
            final(self).mailbox_wait_time_ms == old(self).mailbox_wait_time_ms,
            final(self).watchdog_timeout_ms == old(self).watchdog_timeout_ms,
            final(self).mailbox_offsets == old(self).mailbox_offsets,
            final(self).watchdog_control_offsets == old(self).watchdog_control_offsets,
            final(self).watchdog_status_offsets == old(self).watchdog_status_offsets,
            final(self).operational == old(self).operational,
            final(self).watchdog_counter == (old(self).watchdog_counter + 1) % 8,
            final(data)@.len() == old(data)@.len(),
            snapshot@ == if old(self).mailbox_check {
                restored_image(
                    old(data)@,
                    old(self).mailbox_offsets@,
                    final(self).mailbox_buffer@,
                    final(self).mailbox_responding@,
                    old(self).slave_number as nat,
                )
            } else {
                old(data)@
            },
            old(self).mailbox_check ==> forall|i: int|
                0 <= i < old(self).slave_number ==> #[trigger] mailbox_step(
                    old(self).mailbox_timestamps@[i],
                    old(self).mailbox_responding@[i],
                    old(self).mailbox_buffer@[i],
                    final(self).mailbox_timestamps@[i],
                    final(self).mailbox_responding@[i],
                    final(self).mailbox_buffer@[i],
                    old(data)@,
                    old(self).mailbox_offsets@[i]@,
                    now_us,
                    old(self).mailbox_wait_time_ms,
                ),
            old(self).mailbox_check ==> final(self).mailbox_fresh == forall|i: int|
                0 <= i < old(self).slave_number && old(self).mailbox_offsets@[i]@.len() > 0
                    ==> #[trigger] final(self).mailbox_responding@[i],
            !old(self).mailbox_check ==> final(self).mailbox_fresh && final(self).mailbox_timestamps
                == old(self).mailbox_timestamps && final(self).mailbox_responding == old(
                self,
            ).mailbox_responding,
            old(self).watchdog_check ==> forall|i: int|
                0 <= i < old(self).slave_number ==> (
                #[trigger] final(self).watchdog_previous@[i],
                final(self).watchdog_timestamps@[i],
                final(self).watchdog_responding@[i],
                ) == watchdog_observe(
                    old(self).watchdog_previous@[i],
                    old(self).watchdog_timestamps@[i],
                    old(self).watchdog_responding@[i],
                    status_counter(
                        if old(self).operational {
                            apply_writes(snapshot@, commands@)
                        } else {
                            snapshot@
                        },
                        old(self).watchdog_status_offsets@[i]@,
                    ),
                    now_us,
                    old(self).watchdog_timeout_ms,
                ),
            old(self).watchdog_check ==> final(self).watchdog_fresh == forall|i: int|
                0 <= i < old(self).slave_number ==> #[trigger] final(self).watchdog_responding@[i],
            !old(self).watchdog_check ==> final(self).watchdog_fresh && final(self).watchdog_responding
                == old(self).watchdog_responding,
            final(data)@ == outgoing_image(
                snapshot@,
                old(self).operational,
                commands@,
                old(self).watchdog_check,
                old(self).watchdog_control_offsets@,
                old(self).watchdog_counter,
            ),
    {
        let ghost orig = data@;
        if self.mailbox_check {
            let fresh = verify_mailbox_pdos(
                self.slave_number,
                data,
                now_us,
                &self.mailbox_offsets,
                &mut self.mailbox_timestamps,
                &mut self.mailbox_responding,
                &mut self.mailbox_buffer,
                self.mailbox_wait_time_ms,
            );
            self.mailbox_fresh = fresh;
            proof {
                lemma_restored_image_len(
                    orig,
                    self.mailbox_offsets@,
                    self.mailbox_buffer@,
                    self.mailbox_responding@,
                    self.slave_number as nat,
                );
            }
        } else {
            self.mailbox_fresh = true;
        }
        let snapshot = copy_bytes(data);
        if self.operational {
            apply_commands(data, commands);
            proof {
                lemma_apply_writes_len(snapshot@, commands@);
            }
        }
        if self.watchdog_check {
            let fresh = verify_watchdog(
                self.slave_number,
                data,
                now_us,
                self.watchdog_timeout_ms,
                self.watchdog_counter,
                &self.watchdog_control_offsets,
                &self.watchdog_status_offsets,
                &mut self.watchdog_timestamps,
                &mut self.watchdog_responding,
                &mut self.watchdog_previous,
            );
            self.watchdog_fresh = fresh;
        } else {
            self.watchdog_fresh = true;
        }
        self.watchdog_counter = (self.watchdog_counter + 1) % 8;
        snapshot
    }

    /// The master-level readiness after a frame was sent, from what the bus
    /// reports and the last liveness results. On a change of readiness the
    /// per-slave states to publish are returned: all `AL_STATE_OP` on
    /// becoming ready, and each slave's own state (from its liveness records
    /// and `al_states`, what the bus says of it) on losing readiness.
    pub fn update_readiness(&mut self, bus: BusStatus, al_states: &Vec<Option<u8>>) -> (r: Option<Vec<u8>>)
        requires
            old(self).wf(),
            al_states@.len() == old(self).slave_number,
        ensures
            *final(self) == (CycleEngine {
                operational: ready_conditions(
                    bus,
                    old(self).slave_number,
                    old(self).mailbox_fresh,
                    old(self).watchdog_fresh,
                ),
                ..*old(self)
            }),
            final(self).operational == old(self).operational ==> r is None,
            !old(self).operational && final(self).operational ==> (r matches Some(s) && s@ == Seq::new(
                old(self).slave_number as nat,
                |i: int| AL_STATE_OP,
            )),
            old(self).operational && !final(self).operational ==> (r matches Some(s) && s@ == Seq::new(
                old(self).slave_number as nat,
                |i: int|
                    slave_state_of(
                        !old(self).mailbox_check || old(self).mailbox_responding@[i],
                        !old(self).watchdog_check || old(self).watchdog_responding@[i],
                        al_states@[i],
                    ),
            )),
    {
        let ready = bus.link_up && bus.al_states == AL_STATE_OP && bus.slaves_responding
            == self.slave_number && self.mailbox_fresh && self.watchdog_fresh;
        if ready == self.operational {
            return None;
        }
        let was = self.operational;
        self.operational = ready;
        let mut states: Vec<u8> = Vec::new();
        let mut i: usize = 0;
        while i < self.slave_number as usize
            invariant
                self.wf(),
                al_states@.len() == self.slave_number,
                i <= self.slave_number,
                self.operational == ready,
                states@ == Seq::new(
                    i as nat,
                    |j: int|
                        if !was {
                            AL_STATE_OP
                        } else {
                            slave_state_of(
                                !self.mailbox_check || self.mailbox_responding@[j],
                                !self.watchdog_check || self.watchdog_responding@[j],
                                al_states@[j],
                            )
                        },
                ),
            decreases self.slave_number - i,
        {
            let s = if !was {
                AL_STATE_OP
            } else {
                get_slave_current_state(
                    !self.mailbox_check || self.mailbox_responding[i],
                    !self.watchdog_check || self.watchdog_responding[i],
                    al_states[i],
                )
            };
            states.push(s);
            proof {
                assert(states@ =~= Seq::new(
                    (i + 1) as nat,
                    |j: int|
                        if !was {
                            AL_STATE_OP
                        } else {
                            slave_state_of(
                                !self.mailbox_check || self.mailbox_responding@[j],
                                !self.watchdog_check || self.watchdog_responding@[j],
                                al_states@[j],
                            )
                        },
                ));
            }
            i = i + 1;
        }
        Some(states)
    }
}

/// Readers never see a half-written frame: the snapshot published in a tick
/// equals, byte for byte, the image sent in that tick, except at the bytes
/// that the writes applied in that tick or the heartbeat counter cover.
pub proof fn lemma_snapshot_is_sent_image(
    snapshot: Seq<u8>,
    operational: bool,
    commands: Seq<PendingWrite>,
    watchdog_check: bool,
    control_offsets: Seq<Vec<ByteRange>>,
    counter: u8,
    p: int,
)
    requires
        0 <= p < snapshot.len(),
        operational ==> forall|j: int|
            0 <= j < commands.len() ==> !write_covers(#[trigger] commands[j], snapshot.len(), p),
        watchdog_check ==> !is_control_byte(control_offsets, p),
    ensures
        outgoing_image(snapshot, operational, commands, watchdog_check, control_offsets, counter).len()
            == snapshot.len(),
        outgoing_image(snapshot, operational, commands, watchdog_check, control_offsets, counter)[p]
            == snapshot[p],
{
    if operational {
        lemma_uncovered_byte_kept(snapshot, commands, p);
        lemma_apply_writes_len(snapshot, commands);
    }
}

/// In a tick that applies no write and sends no heartbeat, the image sent is
/// exactly the snapshot published.
pub proof fn lemma_quiet_tick_sends_snapshot(
    snapshot: Seq<u8>,
    operational: bool,
    commands: Seq<PendingWrite>,
    control_offsets: Seq<Vec<ByteRange>>,
    counter: u8,
)
    requires
        !operational || commands.len() == 0,
    ensures
        outgoing_image(snapshot, operational, commands, false, control_offsets, counter) == snapshot,
{
}

proof fn lemma_restore_ranges_len(
    data: Seq<u8>,
    ranges: Seq<ByteRange>,
    buf: Seq<Vec<u8>>,
    n: nat,
)
    ensures
        restore_ranges(data, ranges, buf, n).len() == data.len(),
    decreases n,
{
    if n > 0 {
        lemma_restore_ranges_len(data, ranges, buf, (n - 1) as nat);
        if n - 1 < buf.len() {
            lemma_apply_write_len(
                restore_ranges(data, ranges, buf, (n - 1) as nat),
                ranges[n - 1],
                buf[n - 1]@,
            );
        }
    }
}

proof fn lemma_restored_image_len(
    data: Seq<u8>,
    offs: Seq<Vec<ByteRange>>,
    bufs: Seq<Vec<Vec<u8>>>,
    responding: Seq<bool>,
    n: nat,
)
    ensures
        restored_image(data, offs, bufs, responding, n).len() == data.len(),
    decreases n,
{
    if n > 0 {
        lemma_restored_image_len(data, offs, bufs, responding, (n - 1) as nat);
        let i = n - 1;
        if offs[i]@.len() > 0 && responding[i] {
            lemma_restore_ranges_len(
                restored_image(data, offs, bufs, responding, (n - 1) as nat),
                offs[i]@,
                bufs[i]@,
                offs[i]@.len(),
            );
        }
    }
}

} // verus!
