use vstd::prelude::*;

use crate::layout::ByteRange;

verus! {

/// The range lies inside an image of `len` bytes.
pub open spec fn range_fits(r: ByteRange, len: nat) -> bool {
    r.start <= r.end && r.end <= len
}

/// `bytes` written over `data` from position `start` on.
pub open spec fn splice(data: Seq<u8>, start: int, bytes: Seq<u8>) -> Seq<u8> {
    data.subrange(0, start) + bytes + data.subrange(start + bytes.len(), data.len() as int)
}

/// The bytes of the image in a range.
pub open spec fn range_bytes(data: Seq<u8>, r: ByteRange) -> Seq<u8> {
    data.subrange(r.start as int, r.end as int)
}

/// A write of `bytes` over range `r` takes effect when the range lies in the
/// image and the lengths agree; otherwise the image is left as it is.
pub open spec fn write_applies(data: Seq<u8>, r: ByteRange, bytes: Seq<u8>) -> bool {
    range_fits(r, data.len()) && bytes.len() == r.end - r.start
}

pub open spec fn apply_write(data: Seq<u8>, r: ByteRange, bytes: Seq<u8>) -> Seq<u8> {
    if write_applies(data, r, bytes) {
        splice(data, r.start as int, bytes)
    } else {
        data
    }
}

/// A copy of a byte vector.
pub fn copy_bytes(b: &Vec<u8>) -> (r: Vec<u8>)
    ensures
        r@ == b@,
{
    let mut out: Vec<u8> = Vec::new();
    let mut p: usize = 0;
    while p < b.len()
        invariant
            p <= b@.len(),
            out@ == b@.subrange(0, p as int),
        decreases b@.len() - p,
    {
        out.push(b[p]);
        proof {
            assert(b@.subrange(0, p + 1) =~= b@.subrange(0, p as int).push(b@[p as int]));
        }
        p = p + 1;
    }
    proof {
        assert(b@.subrange(0, p as int) =~= b@);
    }
    out
}

/// Copies the bytes of a range out of the image.
pub fn read_range(data: &Vec<u8>, r: ByteRange) -> (out: Vec<u8>)
    requires
        range_fits(r, data@.len()),
    ensures
        out@ == range_bytes(data@, r),
{
    let mut out: Vec<u8> = Vec::new();
    let mut p: usize = r.start;
    while p < r.end
        invariant
            r.start <= p <= r.end,
            r.end <= data@.len(),
            out@ == data@.subrange(r.start as int, p as int),
        decreases r.end - p,
    {
        out.push(data[p]);
        proof {
            assert(data@.subrange(r.start as int, p + 1) =~= data@.subrange(
                r.start as int,
                p as int,
            ).push(data@[p as int]));
        }
        p = p + 1;
    }
    out
}

/// Writes `bytes` over range `r` when the write applies; see `apply_write`.
pub fn write_range(data: &mut Vec<u8>, r: ByteRange, bytes: &Vec<u8>)
    ensures
        final(data)@ == apply_write(old(data)@, r, bytes@),
{
    if r.start > r.end || r.end > data.len() || bytes.len() != r.end - r.start {
        return ;
    }
    let ghost orig = data@;
    let mut k: usize = 0;
    while k < bytes.len()
        invariant
            write_applies(orig, r, bytes@),
            k <= bytes@.len(),
            data@.len() == orig.len(),
            forall|p: int|
                0 <= p < orig.len() ==> #[trigger] data@[p] == (if r.start <= p < r.start + k {
                    bytes@[p - r.start]
                } else {
                    orig[p]
                }),
        decreases bytes@.len() - k,
    {
        data.set(r.start + k, bytes[k]);
        k = k + 1;
    }
    proof {
        assert(data@ =~= splice(orig, r.start as int, bytes@));
    }
}

/// Whether every byte of every range is zero.
pub open spec fn all_zero(data: Seq<u8>, ranges: Seq<ByteRange>) -> bool {
    forall|k: int, p: int|
        #![trigger ranges[k], data[p]]
        0 <= k < ranges.len() && ranges[k].start <= p < ranges[k].end ==> data[p] == 0
}

pub fn ranges_all_zero(data: &Vec<u8>, ranges: &Vec<ByteRange>) -> (r: bool)
    requires
        forall|k: int| 0 <= k < ranges@.len() ==> range_fits(#[trigger] ranges@[k], data@.len()),
    ensures
        r == all_zero(data@, ranges@),
{
    let mut k: usize = 0;
    while k < ranges.len()
        invariant
            k <= ranges@.len(),
            forall|j: int| 0 <= j < ranges@.len() ==> range_fits(#[trigger] ranges@[j], data@.len()),
            forall|j: int, p: int|
                #![trigger ranges@[j], data@[p]]
                0 <= j < k && ranges@[j].start <= p < ranges@[j].end ==> data@[p] == 0,
        decreases ranges@.len() - k,
    {
        let r = ranges[k];
        assert(range_fits(ranges@[k as int], data@.len()));
        let mut p: usize = r.start;
        while p < r.end
            invariant
                k < ranges@.len(),
                r == ranges@[k as int],
                range_fits(r, data@.len()),
                r.start <= p <= r.end,
                forall|q: int| r.start <= q < p ==> #[trigger] data@[q] == 0,
            decreases r.end - p,
        {
            if data[p] != 0 {
                proof {
                    assert(ranges@[k as int].start <= p < ranges@[k as int].end && data@[p as int] != 0);
                }
                return false;
            }
            p = p + 1;
        }
        proof {
            assert forall|j: int, q: int|
                #![trigger ranges@[j], data@[q]]
                0 <= j < k + 1 && ranges@[j].start <= q < ranges@[j].end implies data@[q] == 0 by {
                if j == k as int {
                    assert(data@[q] == 0);
                }
            }
        }
        k = k + 1;
    }
    true
}

} // verus!
