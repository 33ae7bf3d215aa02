use vstd::prelude::*;

use crate::image::{
    all_zero, apply_write, range_bytes, range_fits, ranges_all_zero, read_range, write_range,
};
use crate::layout::{entry_range, get_reg_addr_ranges, ByteRange, PdoEntry, SlaveOffsets};
use crate::watchdog::{elapsed_ms, elapsed_ms_exec, ranges_fit};

verus! {

/// What one look at a slave's mailbox inputs does to its record (time of
/// the last non-zero content, responding, whether the content is kept):
/// non-zero content refreshes the record and is kept; all-zero content
/// marks the slave silent once the wait time has passed.
pub open spec fn mailbox_observe(since: u64, zero: bool, now_us: u64, wait_ms: u32) -> (
    u64,
    bool,
    bool,
) {
    if !zero {
        (now_us, true, true)
    } else if elapsed_ms(now_us, since) > wait_ms as u64 {
        (since, false, false)
    } else {
        (since, true, false)
    }
}

/// A slave's mailbox record went from (`ts0`, `resp0`, `buf0`) to (`ts`,
/// `resp`, `buf`) as one look at `data` says: a slave without mailbox
/// inputs keeps its record.
pub open spec fn mailbox_step(
    ts0: u64,
    resp0: bool,
    buf0: Vec<Vec<u8>>,
    ts: u64,
    resp: bool,
    buf: Vec<Vec<u8>>,
    data: Seq<u8>,
    ranges: Seq<ByteRange>,
    now_us: u64,
    wait_ms: u32,
) -> bool {
    let obs = mailbox_observe(ts0, all_zero(data, ranges), now_us, wait_ms);
    if ranges.len() == 0 {
        ts == ts0 && resp == resp0 && buf == buf0
    } else {
        &&& ts == obs.0
        &&& resp == obs.1
        &&& if obs.2 {
            payload_of(buf@, data, ranges)
        } else {
            buf == buf0
        }
    }
}

/// `buf` holds the bytes of each range of `ranges` in `data`.
pub open spec fn payload_of(buf: Seq<Vec<u8>>, data: Seq<u8>, ranges: Seq<ByteRange>) -> bool {
    buf.len() == ranges.len() && forall|k: int|
        0 <= k < ranges.len() ==> (#[trigger] buf[k])@ == range_bytes(data, ranges[k])
}

/// The image after the first `n` cached payloads of a slave are written back
/// over their ranges.
pub open spec fn restore_ranges(data: Seq<u8>, ranges: Seq<ByteRange>, buf: Seq<Vec<u8>>, n: nat) -> Seq<u8>
    decreases n,
{
    if n == 0 {
        data
    } else {
        let d = restore_ranges(data, ranges, buf, (n - 1) as nat);
        if n - 1 < buf.len() {
            apply_write(d, ranges[n - 1], buf[n - 1]@)
        } else {
            d
        }
    }
}

/// The image after the first `n` slaves that have mailbox inputs and respond
/// get their cached payload written back.
pub open spec fn restored_image(
    data: Seq<u8>,
    offs: Seq<Vec<ByteRange>>,
    bufs: Seq<Vec<Vec<u8>>>,
    responding: Seq<bool>,
    n: nat,
) -> Seq<u8>
    decreases n,
{
    if n == 0 {
        data
    } else {
        let d = restored_image(data, offs, bufs, responding, (n - 1) as nat);
        let i = n - 1;
        if offs[i]@.len() > 0 && responding[i] {
            restore_ranges(d, offs[i]@, bufs[i]@, offs[i]@.len())
        } else {
            d
        }
    }
}

fn read_payload(data: &Vec<u8>, ranges: &Vec<ByteRange>) -> (r: Vec<Vec<u8>>)
    requires
        forall|k: int| 0 <= k < ranges@.len() ==> range_fits(#[trigger] ranges@[k], data@.len()),
    ensures
        payload_of(r@, data@, ranges@),
{
    let mut out: Vec<Vec<u8>> = Vec::new();
    let mut k: usize = 0;
    while k < ranges.len()
        invariant
            k <= ranges@.len(),
            forall|j: int| 0 <= j < ranges@.len() ==> range_fits(#[trigger] ranges@[j], data@.len()),
            out@.len() == k,
            forall|j: int| 0 <= j < k ==> (#[trigger] out@[j])@ == range_bytes(data@, ranges@[j]),
        decreases ranges@.len() - k,
    {
        assert(range_fits(ranges@[k as int], data@.len()));
        out.push(read_range(data, ranges[k]));
        k = k + 1;
    }
    out
}

fn restore_slave(data: &mut Vec<u8>, ranges: &Vec<ByteRange>, buf: &Vec<Vec<u8>>)
    ensures
        final(data)@ == restore_ranges(old(data)@, ranges@, buf@, ranges@.len()),
{
    let ghost orig = data@;
    let mut j: usize = 0;
    while j < ranges.len()
        invariant
            j <= ranges@.len(),
            data@ == restore_ranges(orig, ranges@, buf@, j as nat),
        decreases ranges@.len() - j,
    {
        if j < buf.len() {
            write_range(data, ranges[j], &buf[j]);
        }
        j = j + 1;
    }
}

/// One mailbox check of every slave that has mailbox inputs, at time `now_us`.
///
/// Each such slave's record is updated as `mailbox_observe` says, from the
/// image as received; a slave whose content is kept has its payload cached.
/// Then every responding slave gets its cached payload written back over its
/// mailbox ranges, so readers never see the zeroes between two slave writes.
/// The result says whether every slave with mailbox inputs still responds.
pub fn verify_mailbox_pdos(
    slave_number: u32,
    data: &mut Vec<u8>,
    now_us: u64,
    slave_mailbox_pdo_offsets: &Vec<Vec<ByteRange>>,
    slave_mailbox_pdo_timestamps: &mut Vec<u64>,
    slave_is_mailbox_pdo_responding: &mut Vec<bool>,
    slave_mailbox_pdo_data_buffer: &mut Vec<Vec<Vec<u8>>>,
    mailbox_wait_time_ms: u32,
) -> (r: bool)
    requires
        slave_mailbox_pdo_offsets@.len() == slave_number,
        old(slave_mailbox_pdo_timestamps)@.len() == slave_number,
        old(slave_is_mailbox_pdo_responding)@.len() == slave_number,
        old(slave_mailbox_pdo_data_buffer)@.len() == slave_number,
        ranges_fit(slave_mailbox_pdo_offsets@, old(data)@.len()),
    ensures
        final(slave_mailbox_pdo_timestamps)@.len() == slave_number,
        final(slave_is_mailbox_pdo_responding)@.len() == slave_number,
        final(slave_mailbox_pdo_data_buffer)@.len() == slave_number,
        forall|i: int|
            0 <= i < slave_number ==> #[trigger] mailbox_step(
                old(slave_mailbox_pdo_timestamps)@[i],
                old(slave_is_mailbox_pdo_responding)@[i],
                old(slave_mailbox_pdo_data_buffer)@[i],
                final(slave_mailbox_pdo_timestamps)@[i],
                final(slave_is_mailbox_pdo_responding)@[i],
                final(slave_mailbox_pdo_data_buffer)@[i],
                old(data)@,
                slave_mailbox_pdo_offsets@[i]@,
                now_us,
                mailbox_wait_time_ms,
            ),
        final(data)@ == restored_image(
            old(data)@,
            slave_mailbox_pdo_offsets@,
            final(slave_mailbox_pdo_data_buffer)@,
            final(slave_is_mailbox_pdo_responding)@,
            slave_number as nat,
        ),
        r == forall|i: int|
            0 <= i < slave_number && slave_mailbox_pdo_offsets@[i]@.len() > 0
                ==> #[trigger] final(slave_is_mailbox_pdo_responding)@[i],
{
    let ghost orig = data@;
    let ghost offs = slave_mailbox_pdo_offsets@;
    let mut all_responding = true;
    let mut i: usize = 0;
    while i < slave_number as usize
        invariant
            i <= slave_number,
            data@ == orig,
            offs == slave_mailbox_pdo_offsets@,
            offs.len() == slave_number,
            ranges_fit(offs, orig.len()),
            slave_mailbox_pdo_timestamps@.len() == slave_number,
            slave_is_mailbox_pdo_responding@.len() == slave_number,
            slave_mailbox_pdo_data_buffer@.len() == slave_number,
            old(slave_mailbox_pdo_timestamps)@.len() == slave_number,
            old(slave_is_mailbox_pdo_responding)@.len() == slave_number,
            old(slave_mailbox_pdo_data_buffer)@.len() == slave_number,
            forall|j: int|
                0 <= j < i ==> #[trigger] mailbox_step(
                    old(slave_mailbox_pdo_timestamps)@[j],
                    old(slave_is_mailbox_pdo_responding)@[j],
                    old(slave_mailbox_pdo_data_buffer)@[j],
                    slave_mailbox_pdo_timestamps@[j],
                    slave_is_mailbox_pdo_responding@[j],
                    slave_mailbox_pdo_data_buffer@[j],
                    orig,
                    offs[j]@,
                    now_us,
                    mailbox_wait_time_ms,
                ),
            forall|j: int|
                i <= j < slave_number ==> #[trigger] slave_mailbox_pdo_timestamps@[j] == old(
                    slave_mailbox_pdo_timestamps,
                )@[j],
            forall|j: int|
                i <= j < slave_number ==> #[trigger] slave_is_mailbox_pdo_responding@[j] == old(
                    slave_is_mailbox_pdo_responding,
                )@[j],
            forall|j: int|
                i <= j < slave_number ==> #[trigger] slave_mailbox_pdo_data_buffer@[j] == old(
                    slave_mailbox_pdo_data_buffer,
                )@[j],
            all_responding == forall|j: int|
                0 <= j < i && offs[j]@.len() > 0 ==> #[trigger] slave_is_mailbox_pdo_responding@[j],
        decreases slave_number - i,
    {
        let ghost before_ts = slave_mailbox_pdo_timestamps@;
        let ghost before_resp = slave_is_mailbox_pdo_responding@;
        let ghost before_buf = slave_mailbox_pdo_data_buffer@;
        let ranges = &slave_mailbox_pdo_offsets[i];
        assert(slave_mailbox_pdo_timestamps@[i as int] == old(slave_mailbox_pdo_timestamps)@[i as int]);
        assert(ranges@ == offs[i as int]@);
        if ranges.len() > 0 {
            proof {
                assert forall|k: int| 0 <= k < ranges@.len() implies range_fits(
                    #[trigger] ranges@[k],
                    data@.len(),
                ) by {
                    assert(offs[i as int]@[k].start <= offs[i as int]@[k].end);
                }
            }
            let zero = ranges_all_zero(data, ranges);
            if !zero {
                slave_mailbox_pdo_timestamps.set(i, now_us);
                slave_is_mailbox_pdo_responding.set(i, true);
                let payload = read_payload(data, ranges);
                slave_mailbox_pdo_data_buffer.set(i, payload);
            } else if elapsed_ms_exec(now_us, slave_mailbox_pdo_timestamps[i])
                > mailbox_wait_time_ms as u64 {
                slave_is_mailbox_pdo_responding.set(i, false);
                all_responding = false;
            } else {
                slave_is_mailbox_pdo_responding.set(i, true);
            }
        }
        proof {
            assert forall|j: int| 0 <= j < slave_number && j != i implies #[trigger] slave_mailbox_pdo_timestamps@[j]
                == before_ts[j] && slave_is_mailbox_pdo_responding@[j] == before_resp[j]
                && slave_mailbox_pdo_data_buffer@[j] == before_buf[j] by {}
            assert forall|j: int| 0 <= j < i + 1 implies #[trigger] mailbox_step(
                old(slave_mailbox_pdo_timestamps)@[j],
                old(slave_is_mailbox_pdo_responding)@[j],
                old(slave_mailbox_pdo_data_buffer)@[j],
                slave_mailbox_pdo_timestamps@[j],
                slave_is_mailbox_pdo_responding@[j],
                slave_mailbox_pdo_data_buffer@[j],
                orig,
                offs[j]@,
                now_us,
                mailbox_wait_time_ms,
            ) by {
                if j < i {
                    assert(mailbox_step(
                        old(slave_mailbox_pdo_timestamps)@[j],
                        old(slave_is_mailbox_pdo_responding)@[j],
                        old(slave_mailbox_pdo_data_buffer)@[j],
                        before_ts[j],
                        before_resp[j],
                        before_buf[j],
                        orig,
                        offs[j]@,
                        now_us,
                        mailbox_wait_time_ms,
                    ));
                }
            }
            assert forall|j: int| i + 1 <= j < slave_number implies #[trigger] slave_mailbox_pdo_timestamps@[j]
                == old(slave_mailbox_pdo_timestamps)@[j] && slave_is_mailbox_pdo_responding@[j] == old(
                slave_is_mailbox_pdo_responding,
            )@[j] && slave_mailbox_pdo_data_buffer@[j] == old(slave_mailbox_pdo_data_buffer)@[j] by {
                assert(before_ts[j] == old(slave_mailbox_pdo_timestamps)@[j]);
                assert(before_resp[j] == old(slave_is_mailbox_pdo_responding)@[j]);
                assert(before_buf[j] == old(slave_mailbox_pdo_data_buffer)@[j]);
                assert(slave_mailbox_pdo_timestamps@[j] == before_ts[j]);
                assert(slave_is_mailbox_pdo_responding@[j] == before_resp[j]);
                assert(slave_mailbox_pdo_data_buffer@[j] == before_buf[j]);
            }
            if all_responding {
                assert forall|j: int|
                    0 <= j < i + 1 && offs[j]@.len() > 0 implies #[trigger] slave_is_mailbox_pdo_responding@[j] by {
                    if j < i {
                        assert(before_resp[j]);
                    }
                }
            } else if ranges@.len() == 0 || slave_is_mailbox_pdo_responding@[i as int] {
                let w = choose|j: int|
                    0 <= j < i && offs[j]@.len() > 0 && !(#[trigger] before_resp[j]);
                assert(!slave_is_mailbox_pdo_responding@[w]);
            }
        }
        i = i + 1;
    }
    let mut i: usize = 0;
    while i < slave_number as usize
        invariant
            i <= slave_number,
            offs == slave_mailbox_pdo_offsets@,
            offs.len() == slave_number,
            slave_is_mailbox_pdo_responding@.len() == slave_number,
            slave_mailbox_pdo_data_buffer@.len() == slave_number,
            data@ == restored_image(
                orig,
                offs,
                slave_mailbox_pdo_data_buffer@,
                slave_is_mailbox_pdo_responding@,
                i as nat,
            ),
        decreases slave_number - i,
    {
        if slave_mailbox_pdo_offsets[i].len() > 0 && slave_is_mailbox_pdo_responding[i] {
            restore_slave(data, &slave_mailbox_pdo_offsets[i], &slave_mailbox_pdo_data_buffer[i]);
        }
        i = i + 1;
    }
    all_responding
}

/// Mailbox check settings found in the layout: for each slave the ranges of
/// its mailbox input entries (the replicas of each listed name, in order),
/// last-content times (all `now_us`), responding flags (all true) and empty caches.
pub fn init_mailbox_pdo_verification(
    slave_number: u32,
    mailbox_pdo_entries: &Vec<Vec<String>>,
    offsets: &SlaveOffsets,
    now_us: u64,
) -> (r: (Vec<Vec<ByteRange>>, Vec<u64>, Vec<bool>, Vec<Vec<Vec<u8>>>))
    requires
        offsets.wf(),
        slave_number <= u16::MAX,
    ensures
        r.0@.len() == slave_number,
        forall|i: int|
            0 <= i < slave_number ==> #[trigger] r.0@[i]@ == mailbox_ranges(
                offsets,
                i,
                if i < mailbox_pdo_entries@.len() {
                    mailbox_pdo_entries@[i]@
                } else {
                    seq![]
                },
            ),
        r.1@ == Seq::new(slave_number as nat, |i: int| now_us),
        r.2@ == Seq::new(slave_number as nat, |i: int| true),
        r.3@.len() == slave_number,
        forall|i: int| 0 <= i < slave_number ==> (#[trigger] r.3@[i])@.len() == 0,
{
    let mut ranges_all: Vec<Vec<ByteRange>> = Vec::new();
    let mut timestamps: Vec<u64> = Vec::new();
    let mut responding: Vec<bool> = Vec::new();
    let mut buffers: Vec<Vec<Vec<u8>>> = Vec::new();
    let mut i: u32 = 0;
    while i < slave_number
        invariant
            offsets.wf(),
            slave_number <= u16::MAX,
            i <= slave_number,
            ranges_all@.len() == i,
            forall|j: int|
                0 <= j < i ==> #[trigger] ranges_all@[j]@ == mailbox_ranges(
                    offsets,
                    j,
                    if j < mailbox_pdo_entries@.len() {
                        mailbox_pdo_entries@[j]@
                    } else {
                        seq![]
                    },
                ),
            timestamps@ == Seq::new(i as nat, |j: int| now_us),
            responding@ == Seq::new(i as nat, |j: int| true),
            buffers@.len() == i,
            forall|j: int| 0 <= j < i ==> (#[trigger] buffers@[j])@.len() == 0,
        decreases slave_number - i,
    {
        let mut slave_ranges: Vec<ByteRange> = Vec::new();
        let ghost names: Seq<String> = if (i as int) < mailbox_pdo_entries@.len() {
            mailbox_pdo_entries@[i as int]@
        } else {
            seq![]
        };
        if (i as usize) < mailbox_pdo_entries.len() {
            let entries = &mailbox_pdo_entries[i as usize];
            let mut m: usize = 0;
            while m < entries.len()
                invariant
                    offsets.wf(),
                    names == entries@,
                    i < slave_number,
                    slave_number <= u16::MAX,
                    m <= entries@.len(),
                    slave_ranges@ == mailbox_ranges(offsets, i as int, names.subrange(0, m as int)),
                decreases entries@.len() - m,
            {
                let more = get_reg_addr_ranges(offsets, i as u16, &entries[m]);
                let ghost before = slave_ranges@;
                let mut more_mut = more;
                slave_ranges.append(&mut more_mut);
                proof {
                    assert(names.subrange(0, m + 1).drop_last() =~= names.subrange(0, m as int));
                    assert(names.subrange(0, m + 1).last() == names[m as int]);
                    assert(slave_ranges@ == before + more@);
                }
                m = m + 1;
            }
            proof {
                assert(names.subrange(0, m as int) =~= names);
            }
        }
        let ghost r0 = ranges_all@;
        let ghost b0 = buffers@;
        ranges_all.push(slave_ranges);
        timestamps.push(now_us);
        responding.push(true);
        buffers.push(Vec::new());
        proof {
            assert forall|j: int| 0 <= j < i + 1 implies #[trigger] ranges_all@[j]@ == mailbox_ranges(
                offsets,
                j,
                if j < mailbox_pdo_entries@.len() {
                    mailbox_pdo_entries@[j]@
                } else {
                    seq![]
                },
            ) by {
                if j < i {
                    assert(ranges_all@[j] == r0[j]);
                }
            }
            assert forall|j: int| 0 <= j < i + 1 implies (#[trigger] buffers@[j])@.len() == 0 by {
                if j < i {
                    assert(buffers@[j] == b0[j]);
                }
            }
            assert(timestamps@ =~= Seq::new((i + 1) as nat, |j: int| now_us));
            assert(responding@ =~= Seq::new((i + 1) as nat, |j: int| true));
        }
        i = i + 1;
    }
    (ranges_all, timestamps, responding, buffers)
}

/// The ranges of every replica of each listed entry name on a slave, name by name.
pub open spec fn mailbox_ranges(offsets: &SlaveOffsets, slave: int, names: Seq<String>) -> Seq<
    ByteRange,
>
    decreases names.len(),
{
    if names.len() == 0 {
        seq![]
    } else {
        mailbox_ranges(offsets, slave, names.drop_last()) + offsets.entries(
            slave,
            names.last()@,
        ).map_values(|e: PdoEntry| entry_range(e))
    }
}

} // verus!
