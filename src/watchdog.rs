use vstd::prelude::*;

use crate::layout::{get_reg_addr_ranges, ByteRange, SlaveOffsets};

verus! {

/// Every range of every slave lies inside an image of `len` bytes.
pub open spec fn ranges_fit(offs: Seq<Vec<ByteRange>>, len: nat) -> bool {
    forall|i: int, k: int|
        0 <= i < offs.len() && 0 <= k < offs[i]@.len() ==> #[trigger] offs[i]@[k].start
            <= offs[i]@[k].end && offs[i]@[k].end <= len
}

/// Milliseconds from `since` to `now` (microsecond clocks), zero if the clock went back.
pub open spec fn elapsed_ms(now_us: u64, since_us: u64) -> u64 {
    if now_us >= since_us {
        ((now_us - since_us) / 1000) as u64
    } else {
        0
    }
}

pub fn elapsed_ms_exec(now_us: u64, since_us: u64) -> (r: u64)
    ensures
        r == elapsed_ms(now_us, since_us),
{
    if now_us >= since_us {
        (now_us - since_us) / 1000
    } else {
        0
    }
}

/// The 3-bit counter that a slave returns in the high byte of its status
/// word: status bit 8 is counter bit 0, status bits 14 and 15 are counter bits 1 and 2.
pub open spec fn counter_of_status_byte(hi: u8) -> u8 {
    (hi & 0x01) | ((hi & 0xC0) >> 5u8)
}

/// The high byte of a control word carrying counter `c` in bits 11 to 13;
/// control bits 8 to 10 are kept.
pub open spec fn stamp_control_byte(hi: u8, c: u8) -> u8 {
    (hi & 0x07) | ((c << 3u8) as u8)
}

proof fn lemma_counter_bits(hi: u8, c: u8)
    by (bit_vector)
    requires
        c < 8,
    ensures
        (hi & 0x01) | ((hi & 0xC0) >> 5u8) < 8,
        ((((hi & 0x07) | ((c << 3u8) as u8)) & 0x07) | ((c << 3u8) as u8)) == (hi & 0x07) | ((c
            << 3u8) as u8),
{
}

/// Reads the counter out of a status word given as its two little-endian bytes.
pub fn parse_watchdog_from_status(statusword: &Vec<u8>) -> (r: u8)
    requires
        statusword@.len() >= 2,
    ensures
        r == counter_of_status_byte(statusword@[1]),
        r < 8,
{
    proof {
        lemma_counter_bits(statusword@[1], 0);
    }
    (statusword[1] & 0x01) | ((statusword[1] & 0xC0) >> 5u8)
}

/// Writes the counter into a control word given as its two little-endian bytes.
pub fn write_watchdog_to_control(control_word: Vec<u8>, watchdog_counter: u8) -> (r: Vec<u8>)
    requires
        control_word@.len() >= 2,
        watchdog_counter < 8,
    ensures
        r@ == control_word@.update(1, stamp_control_byte(control_word@[1], watchdog_counter)),
{
    let mut cw = control_word;
    let hi = (cw[1] & 0x07) | (watchdog_counter << 3u8);
    cw.set(1, hi);
    cw
}

/// The counter that a slave returns, read from its first status range, or
/// `None` when that range is missing or shorter than a status word.
pub open spec fn status_counter(data: Seq<u8>, ranges: Seq<ByteRange>) -> Option<u8> {
    if ranges.len() > 0 && ranges[0].start + 2 <= ranges[0].end {
        Some(counter_of_status_byte(data[ranges[0].start + 1]))
    } else {
        None
    }
}

/// What one look at a slave's returned counter does to its watchdog record
/// (previous counter, time of last change, responding): a changed counter
/// refreshes it, an unchanged one marks the slave silent once the timeout
/// has passed, and a slave without a readable status word is silent.
pub open spec fn watchdog_observe(
    prev: u8,
    since: u64,
    responding: bool,
    counter: Option<u8>,
    now_us: u64,
    timeout_ms: u32,
) -> (u8, u64, bool) {
    match counter {
        None => (prev, since, false),
        Some(c) => if c != prev {
            (c, now_us, true)
        } else if elapsed_ms(now_us, since) > timeout_ms as u64 {
            (prev, since, false)
        } else {
            (prev, since, responding)
        },
    }
}

/// Byte `p` is the high byte of some control range.
pub open spec fn is_control_byte(offs: Seq<Vec<ByteRange>>, p: int) -> bool {
    exists|i: int, k: int|
        0 <= i < offs.len() && 0 <= k < offs[i]@.len() && offs[i]@[k].start + 2
            <= offs[i]@[k].end && #[trigger] offs[i]@[k].start + 1 == p
}

/// The image after the outgoing counter is written into every control word.
pub open spec fn stamped_image(data: Seq<u8>, offs: Seq<Vec<ByteRange>>, c: u8) -> Seq<u8> {
    Seq::new(
        data.len(),
        |p: int|
            if is_control_byte(offs, p) {
                stamp_control_byte(data[p], c)
            } else {
                data[p]
            },
    )
}

/// Byte `p` is the high byte of a control range visited before range `k` of slave `i`.
pub open spec fn stamped_before(offs: Seq<Vec<ByteRange>>, i: int, k: int, p: int) -> bool {
    exists|a: int, b: int|
        0 <= a < offs.len() && 0 <= b < offs[a]@.len() && (a < i || (a == i && b < k))
            && offs[a]@[b].start + 2 <= offs[a]@[b].end && #[trigger] offs[a]@[b].start + 1 == p
}

fn stamp_control_words(data: &mut Vec<u8>, control_offsets: &Vec<Vec<ByteRange>>, counter: u8)
    requires
        ranges_fit(control_offsets@, old(data)@.len()),
        counter < 8,
    ensures
        final(data)@ == stamped_image(old(data)@, control_offsets@, counter),
{
    let ghost orig = data@;
    let ghost offs = control_offsets@;
    let mut i: usize = 0;
    while i < control_offsets.len()
        invariant
            offs == control_offsets@,
            ranges_fit(offs, orig.len()),
            counter < 8,
            i <= offs.len(),
            data@.len() == orig.len(),
            forall|p: int|
                0 <= p < orig.len() ==> #[trigger] data@[p] == (if stamped_before(offs, i as int, 0, p) {
                    stamp_control_byte(orig[p], counter)
                } else {
                    orig[p]
                }),
        decreases offs.len() - i,
    {
        let ranges = &control_offsets[i];
        let mut k: usize = 0;
        while k < ranges.len()
            invariant
                offs == control_offsets@,
                ranges@ == offs[i as int]@,
                ranges_fit(offs, orig.len()),
                counter < 8,
                i < offs.len(),
                k <= ranges@.len(),
                data@.len() == orig.len(),
                forall|p: int|
                    0 <= p < orig.len() ==> #[trigger] data@[p] == (if stamped_before(offs, i as int, k as int, p) {
                        stamp_control_byte(orig[p], counter)
                    } else {
                        orig[p]
                    }),
            decreases ranges@.len() - k,
        {
            let r = ranges[k];
            assert(offs[i as int]@[k as int] == r);
            assert(offs[i as int]@[k as int].start <= offs[i as int]@[k as int].end);
            if r.end >= 2 && r.start <= r.end - 2 {
                let p = r.start + 1;
                let hi = (data[p] & 0x07) | (counter << 3u8);
                proof {
                    lemma_counter_bits(orig[p as int], counter);
                    if stamped_before(offs, i as int, k as int, p as int) {
                        assert(data@[p as int] == stamp_control_byte(orig[p as int], counter));
                    }
                }
                data.set(p, hi);
                proof {
                    assert forall|q: int| 0 <= q < orig.len() implies #[trigger] data@[q] == (if stamped_before(
                        offs,
                        i as int,
                        k + 1,
                        q,
                    ) {
                        stamp_control_byte(orig[q], counter)
                    } else {
                        orig[q]
                    }) by {
                        if q == p as int {
                            assert(stamped_before(offs, i as int, k + 1, q));
                        } else {
                            if stamped_before(offs, i as int, k + 1, q) {
                                let (a, b) = choose|a: int, b: int|
                                    0 <= a < offs.len() && 0 <= b < offs[a]@.len() && (a < i || (a
                                        == i && b < k + 1)) && offs[a]@[b].start + 2
                                        <= offs[a]@[b].end && #[trigger] offs[a]@[b].start + 1 == q;
                                assert(stamped_before(offs, i as int, k as int, q));
                            }
                        }
                    }
                }
            } else {
                proof {
                    assert forall|q: int| 0 <= q < orig.len() implies stamped_before(
                        offs,
                        i as int,
                        k + 1,
                        q,
                    ) == stamped_before(offs, i as int, k as int, q) by {
                        if stamped_before(offs, i as int, k + 1, q) {
                            let (a, b) = choose|a: int, b: int|
                                0 <= a < offs.len() && 0 <= b < offs[a]@.len() && (a < i || (a == i
                                    && b < k + 1)) && offs[a]@[b].start + 2 <= offs[a]@[b].end
                                    && #[trigger] offs[a]@[b].start + 1 == q;
                            assert(!(a == i && b == k));
                        }
                    }
                }
            }
            k = k + 1;
        }
        proof {
            assert forall|q: int| 0 <= q < orig.len() implies stamped_before(offs, i + 1, 0, q)
                == stamped_before(offs, i as int, k as int, q) by {
                if stamped_before(offs, i + 1, 0, q) {
                    let (a, b) = choose|a: int, b: int|
                        0 <= a < offs.len() && 0 <= b < offs[a]@.len() && (a < i + 1 || (a == i + 1
                            && b < 0)) && offs[a]@[b].start + 2 <= offs[a]@[b].end
                            && #[trigger] offs[a]@[b].start + 1 == q;
                    assert(stamped_before(offs, i as int, k as int, q));
                }
            }
        }
        i = i + 1;
    }
    proof {
        assert forall|q: int| 0 <= q < orig.len() implies stamped_before(offs, i as int, 0, q)
            == is_control_byte(offs, q) by {
            if is_control_byte(offs, q) {
                let (a, b) = choose|a: int, b: int|
                    0 <= a < offs.len() && 0 <= b < offs[a]@.len() && offs[a]@[b].start + 2
                        <= offs[a]@[b].end && #[trigger] offs[a]@[b].start + 1 == q;
                assert(stamped_before(offs, i as int, 0, q));
            }
        }
        assert(data@ =~= stamped_image(orig, offs, counter));
    }
}

/// One watchdog check of every slave, at time `now_us`.
///
/// Each slave's returned counter is read from its status word and its
/// record updated as `watchdog_observe` says; then `watchdog_counter` is
/// written into every slave's control words. The result says whether every
/// slave is still responding.
pub fn verify_watchdog(
    slave_number: u32,
    data: &mut Vec<u8>,
    now_us: u64,
    watchdog_timeout_ms: u32,
    watchdog_counter: u8,
    slave_watchdog_control_offsets: &Vec<Vec<ByteRange>>,
    slave_watchdog_status_offsets: &Vec<Vec<ByteRange>>,
    slave_watchdog_timestamps: &mut Vec<u64>,
    slave_is_watchdog_responding: &mut Vec<bool>,
    slave_previous_watchdog_counter: &mut Vec<u8>,
) -> (r: bool)
    requires
        watchdog_counter < 8,
        slave_watchdog_control_offsets@.len() == slave_number,
        slave_watchdog_status_offsets@.len() == slave_number,
        old(slave_watchdog_timestamps)@.len() == slave_number,
        old(slave_is_watchdog_responding)@.len() == slave_number,
        old(slave_previous_watchdog_counter)@.len() == slave_number,
        ranges_fit(slave_watchdog_control_offsets@, old(data)@.len()),
        ranges_fit(slave_watchdog_status_offsets@, old(data)@.len()),
    ensures
        final(slave_watchdog_timestamps)@.len() == slave_number,
        final(slave_is_watchdog_responding)@.len() == slave_number,
        final(slave_previous_watchdog_counter)@.len() == slave_number,
        forall|i: int|
            0 <= i < slave_number ==> (
            #[trigger] final(slave_previous_watchdog_counter)@[i],
            final(slave_watchdog_timestamps)@[i],
            final(slave_is_watchdog_responding)@[i],
            ) == watchdog_observe(
                old(slave_previous_watchdog_counter)@[i],
                old(slave_watchdog_timestamps)@[i],
                old(slave_is_watchdog_responding)@[i],
                status_counter(old(data)@, slave_watchdog_status_offsets@[i]@),
                now_us,
                watchdog_timeout_ms,
            ),
        final(data)@ == stamped_image(old(data)@, slave_watchdog_control_offsets@, watchdog_counter),
        r == forall|i: int| 0 <= i < slave_number ==> #[trigger] final(slave_is_watchdog_responding)@[i],
{
    let ghost orig = data@;
    let mut all_responding = true;
    let mut i: usize = 0;
    while i < slave_number as usize
        invariant
            i <= slave_number,
            data@ == orig,
            slave_watchdog_status_offsets@.len() == slave_number,
            ranges_fit(slave_watchdog_status_offsets@, orig.len()),
            slave_watchdog_timestamps@.len() == slave_number,
            slave_is_watchdog_responding@.len() == slave_number,
            slave_previous_watchdog_counter@.len() == slave_number,
            old(slave_watchdog_timestamps)@.len() == slave_number,
            old(slave_is_watchdog_responding)@.len() == slave_number,
            old(slave_previous_watchdog_counter)@.len() == slave_number,
            forall|j: int|
                0 <= j < i ==> (
                #[trigger] slave_previous_watchdog_counter@[j],
                slave_watchdog_timestamps@[j],
                slave_is_watchdog_responding@[j],
                ) == watchdog_observe(
                    old(slave_previous_watchdog_counter)@[j],
                    old(slave_watchdog_timestamps)@[j],
                    old(slave_is_watchdog_responding)@[j],
                    status_counter(orig, slave_watchdog_status_offsets@[j]@),
                    now_us,
                    watchdog_timeout_ms,
                ),
            forall|j: int|
                i <= j < slave_number ==> #[trigger] slave_previous_watchdog_counter@[j] == old(
                    slave_previous_watchdog_counter,
                )@[j] && slave_watchdog_timestamps@[j] == old(slave_watchdog_timestamps)@[j]
                    && slave_is_watchdog_responding@[j] == old(slave_is_watchdog_responding)@[j],
            all_responding == forall|j: int| 0 <= j < i ==> #[trigger] slave_is_watchdog_responding@[j],
        decreases slave_number - i,
    {
        let ranges = &slave_watchdog_status_offsets[i];
        let ghost before_resp = slave_is_watchdog_responding@;
        let ghost before_prev = slave_previous_watchdog_counter@;
        let ghost before_ts = slave_watchdog_timestamps@;
        let prev = slave_previous_watchdog_counter[i];
        let since = slave_watchdog_timestamps[i];
        let counter: Option<u8> = if ranges.len() > 0 && ranges[0].end >= 2 && ranges[0].start
            <= ranges[0].end - 2 {
            assert(slave_watchdog_status_offsets@[i as int]@[0] == ranges@[0]);
            let hi = data[ranges[0].start + 1];
            proof {
                lemma_counter_bits(hi, 0);
            }
            Some((hi & 0x01) | ((hi & 0xC0) >> 5u8))
        } else {
            None
        };
        match counter {
            None => {
                slave_is_watchdog_responding.set(i, false);
            },
            Some(c) => {
                if c != prev {
                    slave_watchdog_timestamps.set(i, now_us);
                    slave_is_watchdog_responding.set(i, true);
                    slave_previous_watchdog_counter.set(i, c);
                } else if elapsed_ms_exec(now_us, since) > watchdog_timeout_ms as u64 {
                    slave_is_watchdog_responding.set(i, false);
                }
            },
        }
        all_responding = all_responding && slave_is_watchdog_responding[i];
        proof {
            assert forall|j: int| 0 <= j < i implies #[trigger] slave_is_watchdog_responding@[j]
                == before_resp[j] by {}
            assert forall|j: int| i < j < slave_number implies #[trigger] slave_previous_watchdog_counter@[j]
                == before_prev[j] && slave_watchdog_timestamps@[j] == before_ts[j]
                && slave_is_watchdog_responding@[j] == before_resp[j] by {}
            if all_responding {
                assert forall|j: int| 0 <= j < i + 1 implies #[trigger] slave_is_watchdog_responding@[j] by {
                    if j < i {
                        assert(before_resp[j]);
                    }
                }
            } else if slave_is_watchdog_responding@[i as int] {
                let w = choose|j: int| 0 <= j < i && !(#[trigger] before_resp[j]);
                assert(!slave_is_watchdog_responding@[w]);
            }
        }
        i = i + 1;
    }
    stamp_control_words(data, slave_watchdog_control_offsets, watchdog_counter);
    all_responding
}

/// Per-slave watchdog settings found in the layout: control-word ranges,
/// status-word ranges, last-change times (all `now_us`), responding flags
/// (all true) and previous counters (all zero).
pub fn init_watchdog_settings(slave_number: u32, offsets: &SlaveOffsets, now_us: u64) -> (r: (
    Vec<Vec<ByteRange>>,
    Vec<Vec<ByteRange>>,
    Vec<u64>,
    Vec<bool>,
    Vec<u8>,
))
    requires
        offsets.wf(),
        slave_number <= u16::MAX,
    ensures
        r.0@.len() == slave_number,
        r.1@.len() == slave_number,
        forall|i: int|
            0 <= i < slave_number ==> #[trigger] r.0@[i]@ == offsets.entries(i, "controlword"@).map_values(
                |e| crate::layout::entry_range(e),
            ) && r.1@[i]@ == offsets.entries(i, "statusword"@).map_values(
                |e| crate::layout::entry_range(e),
            ),
        r.2@ == Seq::new(slave_number as nat, |i: int| now_us),
        r.3@ == Seq::new(slave_number as nat, |i: int| true),
        r.4@ == Seq::new(slave_number as nat, |i: int| 0u8),
{
    let control_name = "controlword".to_owned();
    let status_name = "statusword".to_owned();
    let mut control: Vec<Vec<ByteRange>> = Vec::new();
    let mut status: Vec<Vec<ByteRange>> = Vec::new();
    let mut timestamps: Vec<u64> = Vec::new();
    let mut responding: Vec<bool> = Vec::new();
    let mut previous: Vec<u8> = Vec::new();
    let mut i: u32 = 0;
    while i < slave_number
        invariant
            offsets.wf(),
            slave_number <= u16::MAX,
            i <= slave_number,
            control_name@ == "controlword"@,
            status_name@ == "statusword"@,
            control@.len() == i,
            status@.len() == i,
            forall|j: int|
                0 <= j < i ==> #[trigger] control@[j]@ == offsets.entries(j, "controlword"@).map_values(
                    |e| crate::layout::entry_range(e),
                ) && status@[j]@ == offsets.entries(j, "statusword"@).map_values(
                    |e| crate::layout::entry_range(e),
                ),
            timestamps@ == Seq::new(i as nat, |j: int| now_us),
            responding@ == Seq::new(i as nat, |j: int| true),
            previous@ == Seq::new(i as nat, |j: int| 0u8),
        decreases slave_number - i,
    {
        let ghost c0 = control@;
        let ghost s0 = status@;
        control.push(get_reg_addr_ranges(offsets, i as u16, &control_name));
        status.push(get_reg_addr_ranges(offsets, i as u16, &status_name));
        proof {
            assert forall|j: int| 0 <= j < i + 1 implies #[trigger] control@[j]@ == offsets.entries(
                j,
                "controlword"@,
            ).map_values(|e| crate::layout::entry_range(e)) && status@[j]@ == offsets.entries(
                j,
                "statusword"@,
            ).map_values(|e| crate::layout::entry_range(e)) by {
                if j < i {
                    assert(control@[j] == c0[j]);
                    assert(status@[j] == s0[j]);
                }
            }
        }
        timestamps.push(now_us);
        responding.push(true);
        previous.push(0);
        proof {
            assert(timestamps@ =~= Seq::new((i + 1) as nat, |j: int| now_us));
            assert(responding@ =~= Seq::new((i + 1) as nat, |j: int| true));
            assert(previous@ =~= Seq::new((i + 1) as nat, |j: int| 0u8));
        }
        i = i + 1;
    }
    (control, status, timestamps, responding, previous)
}

} // verus!
