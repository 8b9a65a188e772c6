//! Byte ranges written to a file, and their merge into sorted, disjoint runs.
use crate::error::{Error, is_internal};
use vstd::prelude::*;

verus! {

/// One write: `data` at `offset`.
#[derive(Debug)]
pub struct WriteRange {
    pub offset: u64,
    pub data: Vec<u8>,
}

/// A write as a mathematical value.
#[verifier::ext_equal]
pub struct RangeModel {
    pub offset: int,
    pub bytes: Seq<u8>,
}

impl RangeModel {
    /// First position behind the range.
    pub open spec fn end(self) -> int {
        self.offset + self.bytes.len()
    }

    pub open spec fn covers(self, pos: int) -> bool {
        self.offset <= pos < self.end()
    }

    /// The byte this range holds at `pos`.
    pub open spec fn byte_at(self, pos: int) -> u8 {
        self.bytes[pos - self.offset]
    }
}

impl View for WriteRange {
    type V = RangeModel;

    open spec fn view(&self) -> RangeModel {
        RangeModel { offset: self.offset as int, bytes: self.data@ }
    }
}

/// The models of a sequence of ranges.
pub open spec fn range_models(ranges: Seq<WriteRange>) -> Seq<RangeModel> {
    ranges.map_values(|r: WriteRange| r@)
}

/// What a reader sees at `pos` after the writes were made in order: the byte of
/// the last write that covers it, or nothing.
pub open spec fn written_byte(ranges: Seq<RangeModel>, pos: int) -> Option<u8>
    decreases ranges.len(),
{
    if ranges.len() == 0 {
        None
    } else if ranges.last().covers(pos) {
        Some(ranges.last().byte_at(pos))
    } else {
        written_byte(ranges.drop_last(), pos)
    }
}

/// Number of bytes held by all ranges together.
pub open spec fn total_len(ranges: Seq<RangeModel>) -> nat
    decreases ranges.len(),
{
    if ranges.len() == 0 {
        0
    } else {
        total_len(ranges.drop_last()) + ranges.last().bytes.len()
    }
}

/// The largest end of any range, or nothing when there is no range.
pub open spec fn max_end(ranges: Seq<RangeModel>) -> Option<int>
    decreases ranges.len(),
{
    if ranges.len() == 0 {
        None
    } else {
        let end = ranges.last().end();
        match max_end(ranges.drop_last()) {
            Some(other) => Some(
                if other > end {
                    other
                } else {
                    end
                },
            ),
            None => Some(end),
        }
    }
}

/// Every range ends at or below the largest representable position.
pub open spec fn ends_fit(ranges: Seq<RangeModel>) -> bool {
    forall|i: int| 0 <= i < ranges.len() ==> (#[trigger] ranges[i]).end() <= u64::MAX
}

/// Sorted by offset, none empty, and at least one untouched byte between
/// neighbours.
pub open spec fn gapped(ranges: Seq<RangeModel>) -> bool {
    &&& forall|i: int|
        0 <= i < ranges.len() ==> (#[trigger] ranges[i]).bytes.len() > 0 && ranges[i].offset >= 0
    &&& forall|i: int, j: int|
        0 <= i < j < ranges.len() ==> (#[trigger] ranges[i]).end() < (#[trigger] ranges[j]).offset
}

/// A later write hides an earlier one: the bytes seen after `first` and then
/// `second` are those of `second` where it wrote, and those of `first` elsewhere.
pub proof fn written_byte_of_concat(first: Seq<RangeModel>, second: Seq<RangeModel>, pos: int)
    ensures
        written_byte(first + second, pos) == (match written_byte(second, pos) {
            Some(byte) => Some(byte),
            None => written_byte(first, pos),
        }),
    decreases second.len(),
{
    if second.len() == 0 {
        assert(first + second =~= first);
    } else {
        assert((first + second).drop_last() =~= first + second.drop_last());
        written_byte_of_concat(first, second.drop_last(), pos);
    }
}

/// Bytes in two batches of ranges together.
pub proof fn total_len_of_concat(first: Seq<RangeModel>, second: Seq<RangeModel>)
    ensures
        total_len(first + second) == total_len(first) + total_len(second),
    decreases second.len(),
{
    if second.len() == 0 {
        assert(first + second =~= first);
    } else {
        assert((first + second).drop_last() =~= first + second.drop_last());
        total_len_of_concat(first, second.drop_last());
    }
}

/// A position that no range covers is unwritten.
pub proof fn lemma_unwritten(ranges: Seq<RangeModel>, pos: int)
    requires
        forall|i: int| 0 <= i < ranges.len() ==> !(#[trigger] ranges[i]).covers(pos),
    ensures
        written_byte(ranges, pos) is None,
    decreases ranges.len(),
{
    if ranges.len() > 0 {
        assert(!ranges[ranges.len() - 1].covers(pos));
        assert forall|i: int| 0 <= i < ranges.drop_last().len() implies !(
        #[trigger] ranges.drop_last()[i]).covers(pos) by {
            assert(ranges.drop_last()[i] == ranges[i]);
        }
        lemma_unwritten(ranges.drop_last(), pos);
    }
}

/// Among disjoint ranges the one that covers a position decides its byte.
pub proof fn lemma_written_by(ranges: Seq<RangeModel>, k: int, pos: int)
    requires
        gapped(ranges),
        0 <= k < ranges.len(),
        ranges[k].covers(pos),
    ensures
        written_byte(ranges, pos) == Some(ranges[k].byte_at(pos)),
    decreases ranges.len(),
{
    let n = ranges.len() - 1;
    if k != n {
        assert(ranges[k].end() < ranges[n].offset);
        assert(!ranges.last().covers(pos));
        assert(gapped(ranges.drop_last()));
        lemma_written_by(ranges.drop_last(), k, pos);
    }
}

/// The end of every range is at most the largest end.
pub proof fn lemma_max_end(ranges: Seq<RangeModel>, i: int)
    requires
        0 <= i < ranges.len(),
    ensures
        max_end(ranges) is Some,
        ranges[i].end() <= max_end(ranges)->0,
    decreases ranges.len(),
{
    if i < ranges.len() - 1 {
        lemma_max_end(ranges.drop_last(), i);
    }
}

/// A written position lies below the largest end.
pub proof fn written_below_max_end(ranges: Seq<RangeModel>, pos: int)
    requires
        written_byte(ranges, pos) is Some,
    ensures
        max_end(ranges) is Some,
        pos < max_end(ranges)->0,
    decreases ranges.len(),
{
    lemma_max_end(ranges, ranges.len() - 1);
    if !ranges.last().covers(pos) {
        written_below_max_end(ranges.drop_last(), pos);
    }
}

proof fn lemma_models_push(ranges: Seq<WriteRange>, r: WriteRange)
    ensures
        range_models(ranges.push(r)) == range_models(ranges).push(r@),
{
    assert(range_models(ranges.push(r)) =~= range_models(ranges).push(r@));
}

/// The bytes `data[from..to]`.
pub fn slice_bytes(data: &Vec<u8>, from: usize, to: usize) -> (out: Vec<u8>)
    requires
        from <= to <= data@.len(),
    ensures
        out@ == data@.subrange(from as int, to as int),
{
    let mut out: Vec<u8> = Vec::with_capacity(to - from);
    let mut i: usize = from;
    while i < to
        invariant
            from <= i <= to <= data@.len(),
            out@ == data@.subrange(from as int, i as int),
        decreases to - i,
    {
        out.push(data[i]);
        i += 1;
        assert(out@ =~= data@.subrange(from as int, i as int));
    }
    out
}

/// The overlay of one range on disjoint ranges, as a byte function.
spec fn overlaid(ranges: Seq<RangeModel>, top: RangeModel, pos: int) -> Option<u8> {
    if top.covers(pos) {
        Some(top.byte_at(pos))
    } else {
        written_byte(ranges, pos)
    }
}

proof fn lemma_remove_range(ranges: Seq<RangeModel>, k: int, pos: int)
    requires
        gapped(ranges),
        0 <= k < ranges.len(),
    ensures
        gapped(ranges.remove(k)),
        written_byte(ranges.remove(k), pos) == (if ranges[k].covers(pos) {
            None
        } else {
            written_byte(ranges, pos)
        }),
{
    let rest = ranges.remove(k);
    assert forall|i: int| 0 <= i < rest.len() implies (#[trigger] rest[i]).bytes.len() > 0
        && rest[i].offset >= 0 by {
        assert(rest[i] == if i < k { ranges[i] } else { ranges[i + 1] });
    }
    assert forall|i: int, j: int| 0 <= i < j < rest.len() implies (#[trigger] rest[i]).end() < (
    #[trigger] rest[j]).offset by {
        assert(rest[i] == if i < k { ranges[i] } else { ranges[i + 1] });
        assert(rest[j] == if j < k { ranges[j] } else { ranges[j + 1] });
    }
    if exists|j: int| 0 <= j < rest.len() && (#[trigger] rest[j]).covers(pos) {
        let j = choose|j: int| 0 <= j < rest.len() && (#[trigger] rest[j]).covers(pos);
        let j0 = if j < k { j } else { j + 1 };
        assert(rest[j] == ranges[j0]);
        lemma_written_by(rest, j, pos);
        lemma_written_by(ranges, j0, pos);
        if j0 < k {
            assert(ranges[j0].end() < ranges[k].offset);
        } else {
            assert(ranges[k].end() < ranges[j0].offset);
        }
    } else {
        lemma_unwritten(rest, pos);
        if !ranges[k].covers(pos) {
            assert forall|i: int| 0 <= i < ranges.len() implies !(#[trigger] ranges[i]).covers(
                pos,
            ) by {
                if i < k {
                    assert(rest[i] == ranges[i]);
                } else if i > k {
                    assert(rest[i - 1] == ranges[i]);
                }
            }
            lemma_unwritten(ranges, pos);
        }
    }
}

proof fn lemma_insert_range(ranges: Seq<RangeModel>, k: int, top: RangeModel, pos: int)
    requires
        gapped(ranges),
        0 <= k <= ranges.len(),
        top.bytes.len() > 0,
        top.offset >= 0,
        forall|i: int| 0 <= i < k ==> (#[trigger] ranges[i]).end() < top.offset,
        forall|i: int| k <= i < ranges.len() ==> top.end() < (#[trigger] ranges[i]).offset,
    ensures
        gapped(ranges.insert(k, top)),
        written_byte(ranges.insert(k, top), pos) == overlaid(ranges, top, pos),
{
    let all = ranges.insert(k, top);
    assert forall|i: int, j: int| 0 <= i < j < all.len() implies (#[trigger] all[i]).end() < (
    #[trigger] all[j]).offset by {
        assert(all[i] == if i < k { ranges[i] } else if i == k { top } else { ranges[i - 1] });
        assert(all[j] == if j < k { ranges[j] } else if j == k { top } else { ranges[j - 1] });
    }
    assert forall|i: int| 0 <= i < all.len() implies (#[trigger] all[i]).bytes.len() > 0
        && all[i].offset >= 0 by {
        assert(all[i] == if i < k { ranges[i] } else if i == k { top } else { ranges[i - 1] });
    }
    if top.covers(pos) {
        assert(all[k] == top);
        lemma_written_by(all, k, pos);
    } else if exists|j: int| 0 <= j < ranges.len() && (#[trigger] ranges[j]).covers(pos) {
        let j = choose|j: int| 0 <= j < ranges.len() && (#[trigger] ranges[j]).covers(pos);
        let j1 = if j < k { j } else { j + 1 };
        assert(all[j1] == ranges[j]);
        lemma_written_by(all, j1, pos);
        lemma_written_by(ranges, j, pos);
    } else {
        lemma_unwritten(ranges, pos);
        assert forall|i: int| 0 <= i < all.len() implies !(#[trigger] all[i]).covers(pos) by {
            assert(all[i] == if i < k { ranges[i] } else if i == k { top } else { ranges[i - 1] });
        }
        lemma_unwritten(all, pos);
    }
}

/// Writes `range` over the disjoint runs in `out`, joining every run that it
/// overlaps or touches.
fn overlay_range(out: &mut Vec<WriteRange>, range: &WriteRange)
    requires
        gapped(range_models(old(out)@)),
        ends_fit(range_models(old(out)@)),
        range@.bytes.len() > 0,
        range@.end() <= u64::MAX,
    ensures
        gapped(range_models(final(out)@)),
        ends_fit(range_models(final(out)@)),
        forall|pos: int| #[trigger]
            written_byte(range_models(final(out)@), pos) == overlaid(
                range_models(old(out)@),
                range@,
                pos,
            ),
{
    let ghost before = range_models(out@);
    let end: u64 = range.offset + range.data.len() as u64;
    let mut i: usize = 0;
    assert forall|k: int| 0 <= k < out@.len() implies (#[trigger] out@[k])@ == before[k]
        && out@[k].offset + out@[k].data@.len() <= u64::MAX by {
        assert(before[k].end() <= u64::MAX);
    }
    while i < out.len() && out[i].offset + (out[i].data.len() as u64) < range.offset
        invariant
            i <= out@.len(),
            range_models(out@) == before,
            gapped(before),
            ends_fit(before),
            forall|k: int| 0 <= k < i ==> (#[trigger] before[k]).end() < range@.offset,
            forall|k: int|
                0 <= k < out@.len() ==> (#[trigger] out@[k])@ == before[k] && out@[k].offset
                    + out@[k].data@.len() <= u64::MAX,
        decreases out@.len() - i,
    {
        i += 1;
    }
    let mut start: u64 = range.offset;
    let mut bytes: Vec<u8> = slice_bytes(&range.data, 0, range.data.len());
    let ghost mut now = before;
    proof {
        if i < out@.len() {
            assert(before[i as int] == out@[i as int]@);
        }
    }
    while i < out.len() && out[i].offset <= end
        invariant
            i <= out@.len(),
            range_models(out@) == now,
            gapped(now),
            ends_fit(now),
            end == range@.end(),
            range@.bytes.len() > 0,
            start as int + bytes@.len() <= u64::MAX,
            start <= range@.offset,
            start as int + bytes@.len() >= end,
            bytes@.len() > 0,
            forall|k: int| 0 <= k < i ==> (#[trigger] now[k]).end() < start,
            forall|k: int| i <= k < now.len() ==> (#[trigger] now[k]).end() >= range@.offset,
            start < range@.offset || start as int + bytes@.len() > end ==> forall|k: int|
                i <= k < now.len() ==> start as int + bytes@.len() < (#[trigger] now[k]).offset
                    || start as int + bytes@.len() == end && start < now[k].offset,
            forall|pos: int| #[trigger]
                overlaid(now, RangeModel { offset: start as int, bytes: bytes@ }, pos) == overlaid(
                    before,
                    range@,
                    pos,
                ),
        decreases out@.len() - i,
    {
        assert(now[i as int] == out@[i as int]@);
        let ghost cur = RangeModel { offset: start as int, bytes: bytes@ };
        let ghost gone = now[i as int];
        let old_range: WriteRange = out.remove(i);
        let ghost rest = now.remove(i as int);
        assert(range_models(out@) =~= rest);
        let old_end: u64 = old_range.offset + old_range.data.len() as u64;
        let cur_end: u64 = start + bytes.len() as u64;
        let mut joined: Vec<u8> = Vec::new();
        let mut joined_start: u64 = start;
        if old_range.offset < start {
            let head: usize = (start - old_range.offset) as usize;
            joined = slice_bytes(&old_range.data, 0, head);
            joined_start = old_range.offset;
        }
        let ghost head_bytes = joined@;
        let ghost mid = bytes@;
        joined.append(&mut bytes);
        let ghost tail_bytes: Seq<u8> = Seq::empty();
        if old_end > cur_end {
            let from: usize = (cur_end - old_range.offset) as usize;
            let mut tail: Vec<u8> = slice_bytes(&old_range.data, from, old_range.data.len());
            proof {
                tail_bytes = tail@;
            }
            joined.append(&mut tail);
        }
        assert(joined@ =~= head_bytes + mid + tail_bytes);
        start = joined_start;
        bytes = joined;
        proof {
            let next = RangeModel { offset: start as int, bytes: bytes@ };
            assert forall|pos: int| #[trigger] overlaid(rest, next, pos) == overlaid(
                before,
                range@,
                pos,
            ) by {
                assert(overlaid(now, cur, pos) == overlaid(before, range@, pos));
                lemma_remove_range(now, i as int, pos);
                if gone.covers(pos) {
                    lemma_written_by(now, i as int, pos);
                }
            }
            assert forall|k: int| 0 <= k < rest.len() implies (#[trigger] rest[k]).end()
                <= u64::MAX by {
                assert(rest[k] == if k < i { now[k] } else { now[k + 1] });
            }
            assert forall|k: int| 0 <= k < i implies (#[trigger] rest[k]).end() < start by {
                assert(rest[k] == now[k]);
                assert(now[k].end() < now[i as int].offset);
            }
            lemma_remove_range(now, i as int, 0);
            assert forall|k: int| i <= k < rest.len() implies (#[trigger] rest[k]).end()
                >= range@.offset && gone.end() < rest[k].offset by {
                assert(rest[k] == now[k + 1]);
            }
            now = rest;
            if i < out@.len() {
                assert(now[i as int] == out@[i as int]@);
            }
        }
    }
    proof {
        if i < out@.len() {
            assert(now[i as int] == out@[i as int]@);
        }
    }
    let ghost top = RangeModel { offset: start as int, bytes: bytes@ };
    let merged = WriteRange { offset: start, data: bytes };
    proof {
        assert forall|k: int| i <= k < now.len() implies top.end() < (
        #[trigger] now[k]).offset by {
            assert(now[i as int].offset > end);
            if k > i {
                assert(now[i as int].end() < now[k].offset);
            }
        }
        assert forall|pos: int| #[trigger] written_byte(now.insert(i as int, top), pos) == overlaid(
            before,
            range@,
            pos,
        ) by {
            lemma_insert_range(now, i as int, top, pos);
            assert(overlaid(now, top, pos) == overlaid(before, range@, pos));
        }
        lemma_insert_range(now, i as int, top, 0);
    }
    out.insert(i, merged);
    proof {
        assert(range_models(out@) =~= now.insert(i as int, top));
        let all = now.insert(i as int, top);
        assert forall|k: int| 0 <= k < all.len() implies (#[trigger] all[k]).end() <= u64::MAX by {
            assert(all[k] == if k < i {
                now[k]
            } else if k == i {
                top
            } else {
                now[k - 1]
            });
        }
    }
}

/// Merges writes, made in order, into sorted disjoint runs: each position holds
/// the byte of the last write that covers it. Empty writes are dropped. A write
/// that ends beyond the largest representable position is refused.
pub fn normalize_write_ranges(ranges: &Vec<WriteRange>) -> (result: Result<Vec<WriteRange>, Error>)
    ensures
        match result {
            Ok(runs) => {
                &&& ends_fit(range_models(ranges@))
                &&& gapped(range_models(runs@))
                &&& ends_fit(range_models(runs@))
                &&& forall|pos: int| #[trigger]
                    written_byte(range_models(runs@), pos) == written_byte(
                        range_models(ranges@),
                        pos,
                    )
            },
            Err(error) => {
                &&& !ends_fit(range_models(ranges@))
                &&& is_internal(error, "write range end overflow"@)
            },
        },
{
    let ghost all = range_models(ranges@);
    let mut runs: Vec<WriteRange> = Vec::new();
    let mut i: usize = 0;
    assert(range_models(runs@) =~= Seq::<RangeModel>::empty());
    while i < ranges.len()
        invariant
            i <= ranges@.len(),
            all == range_models(ranges@),
            gapped(range_models(runs@)),
            ends_fit(range_models(runs@)),
            ends_fit(all.take(i as int)),
            forall|pos: int| #[trigger]
                written_byte(range_models(runs@), pos) == written_byte(all.take(i as int), pos),
        decreases ranges@.len() - i,
    {
        let range: &WriteRange = &ranges[i];
        assert(all[i as int] == range@);
        let len: u64 = range.data.len() as u64;
        if len > u64::MAX - range.offset {
            return Err(Error::Internal("write range end overflow".to_owned()));
        }
        assert(all.take(i + 1).drop_last() =~= all.take(i as int));
        let ghost before = range_models(runs@);
        if len > 0 {
            overlay_range(&mut runs, range);
        }
        proof {
            assert forall|pos: int| #[trigger]
                written_byte(range_models(runs@), pos) == written_byte(all.take(i + 1), pos) by {
                assert(written_byte(before, pos) == written_byte(all.take(i as int), pos));
                assert(all.take(i + 1).last() == range@);
                if len > 0 {
                    assert(written_byte(range_models(runs@), pos) == overlaid(
                        before,
                        range@,
                        pos,
                    ));
                }
            }
            assert forall|k: int| 0 <= k < i + 1 implies (#[trigger] all.take(i + 1)[k]).end()
                <= u64::MAX by {
                if k < i {
                    assert(all.take(i as int)[k] == all.take(i + 1)[k]);
                }
            }
        }
        i += 1;
    }
    assert(all.take(i as int) =~= all);
    Ok(runs)
}

/// Whether a range meets the window `[from, to)`.
pub open spec fn meets(range: RangeModel, from: int, to: int) -> bool {
    range.end() > from && range.offset < to && from < to
}

/// The part of a range inside the window `[from, to)`.
pub open spec fn clipped(range: RangeModel, from: int, to: int) -> RangeModel {
    let start = if from > range.offset { from } else { range.offset };
    let end = if to < range.end() { to } else { range.end() };
    RangeModel { offset: start, bytes: range.bytes.subrange(start - range.offset, end - range.offset) }
}

/// The runs that meet `[from, to)`, each cut to the window, in order.
pub open spec fn clip_all(ranges: Seq<RangeModel>, from: int, to: int) -> Seq<RangeModel>
    decreases ranges.len(),
{
    if ranges.len() == 0 {
        Seq::empty()
    } else {
        let head = clip_all(ranges.drop_last(), from, to);
        if ranges.last().bytes.len() > 0 && meets(ranges.last(), from, to) {
            head.push(clipped(ranges.last(), from, to))
        } else {
            head
        }
    }
}

/// Clipping keeps the bytes inside the window and drops the others.
pub proof fn clip_all_keeps_window(ranges: Seq<RangeModel>, from: int, to: int, pos: int)
    requires
        forall|i: int| 0 <= i < ranges.len() ==> (#[trigger] ranges[i]).offset >= 0,
    ensures
        written_byte(clip_all(ranges, from, to), pos) == (if from <= pos < to {
            written_byte(ranges, pos)
        } else {
            None
        }),
    decreases ranges.len(),
{
    if ranges.len() > 0 {
        let head = ranges.drop_last();
        assert forall|i: int| 0 <= i < head.len() implies (#[trigger] head[i]).offset >= 0 by {
            assert(head[i] == ranges[i]);
        }
        clip_all_keeps_window(head, from, to, pos);
        let last = ranges.last();
        if last.bytes.len() > 0 && meets(last, from, to) {
            let all = clip_all(ranges, from, to);
            assert(all.drop_last() =~= clip_all(head, from, to));
            assert(all.last() == clipped(last, from, to));
        }
    }
}

/// Clipped runs lie inside the window and stay disjoint.
pub proof fn clip_all_inside(ranges: Seq<RangeModel>, from: int, to: int)
    requires
        gapped(ranges),
        0 <= from,
    ensures
        gapped(clip_all(ranges, from, to)),
        forall|i: int|
            0 <= i < clip_all(ranges, from, to).len() ==> from <= (#[trigger] clip_all(
                ranges,
                from,
                to,
            )[i]).offset && clip_all(ranges, from, to)[i].end() <= to,
        forall|i: int|
            ranges.len() > 0 && 0 <= i < clip_all(ranges, from, to).len() ==> (
            #[trigger] clip_all(ranges, from, to)[i]).end() <= ranges.last().end(),
    decreases ranges.len(),
{
    if ranges.len() > 0 {
        let head = ranges.drop_last();
        assert(gapped(head));
        clip_all_inside(head, from, to);
        let cut = clip_all(head, from, to);
        let all = clip_all(ranges, from, to);
        let last = ranges.last();
        assert(ranges[ranges.len() - 1] == last);
        if head.len() > 0 {
            assert(ranges[head.len() - 1] == head.last());
            assert(head.last().end() < last.offset);
        }
        if last.bytes.len() > 0 && meets(last, from, to) {
            let piece = clipped(last, from, to);
            assert(piece.bytes.len() > 0);
            assert forall|i: int, j: int| 0 <= i < j < all.len() implies (#[trigger] all[i]).end()
                < (#[trigger] all[j]).offset by {
                assert(all[i] == cut[i]);
                if j < cut.len() {
                    assert(all[j] == cut[j]);
                } else {
                    assert(all[j] == piece);
                    assert(cut[i].end() <= head.last().end());
                }
            }
            assert forall|i: int| 0 <= i < all.len() implies (#[trigger] all[i]).bytes.len() > 0
                && all[i].offset >= 0 && from <= all[i].offset && all[i].end() <= to
                && all[i].end() <= last.end() by {
                if i < cut.len() {
                    assert(all[i] == cut[i]);
                    assert(cut[i].end() <= head.last().end());
                }
            }
        } else {
            assert forall|i: int| 0 <= i < all.len() implies (#[trigger] all[i]).end()
                <= last.end() by {
                assert(cut[i].end() <= head.last().end());
            }
        }
    }
}

/// The runs of `runs` inside the window `[from, to)`.
pub fn clip_runs(runs: &Vec<WriteRange>, from: u64, to: u64) -> (out: Vec<WriteRange>)
    requires
        from <= to,
        ends_fit(range_models(runs@)),
    ensures
        range_models(out@) == clip_all(range_models(runs@), from as int, to as int),
{
    let ghost all = range_models(runs@);
    let mut out: Vec<WriteRange> = Vec::new();
    assert(range_models(out@) =~= Seq::<RangeModel>::empty());
    let mut i: usize = 0;
    while i < runs.len()
        invariant
            i <= runs@.len(),
            from <= to,
            all == range_models(runs@),
            ends_fit(all),
            range_models(out@) == clip_all(all.take(i as int), from as int, to as int),
        decreases runs@.len() - i,
    {
        let run: &WriteRange = &runs[i];
        assert(all[i as int] == run@);
        assert(all.take(i + 1).drop_last() =~= all.take(i as int));
        assert(all.take(i + 1).last() == run@);
        let end: u64 = run.offset + run.data.len() as u64;
        if run.data.len() > 0 && end > from && run.offset < to && from < to {
            let clip_start: u64 = if from > run.offset { from } else { run.offset };
            let clip_end: u64 = if to < end { to } else { end };
            let skip: usize = (clip_start - run.offset) as usize;
            let upto: usize = (clip_end - run.offset) as usize;
            let data: Vec<u8> = slice_bytes(&run.data, skip, upto);
            let piece = WriteRange { offset: clip_start, data };
            proof {
                lemma_models_push(out@, piece);
                assert(piece@ == clipped(run@, from as int, to as int));
            }
            out.push(piece);
        }
        i += 1;
    }
    assert(all.take(i as int) =~= all);
    out
}

/// What a buffer that starts at `start` holds after the ranges were laid over it.
pub open spec fn merged_bytes(base: Seq<u8>, start: int, ranges: Seq<RangeModel>) -> Seq<u8> {
    Seq::new(
        base.len(),
        |i: int|
            match written_byte(ranges, start + i) {
                Some(byte) => byte,
                None => base[i],
            },
    )
}

/// Lays disjoint runs over a buffer whose first byte is at position `start`.
/// Returns whether any run was applied.
pub fn apply_runs(buf: &mut Vec<u8>, start: u64, runs: &Vec<WriteRange>) -> (applied: bool)
    requires
        start + old(buf)@.len() <= u64::MAX,
        forall|i: int|
            0 <= i < runs@.len() ==> (#[trigger] runs@[i])@.offset >= start && runs@[i]@.end()
                <= start + old(buf)@.len(),
    ensures
        final(buf)@ == merged_bytes(old(buf)@, start as int, range_models(runs@)),
        applied == (runs@.len() > 0),
{
    let ghost base = buf@;
    let ghost all = range_models(runs@);
    let mut applied = false;
    let mut i: usize = 0;
    assert(buf@ =~= merged_bytes(base, start as int, all.take(0)));
    while i < runs.len()
        invariant
            i <= runs@.len(),
            all == range_models(runs@),
            applied == (i > 0),
            start + base.len() <= u64::MAX,
            buf@ == merged_bytes(base, start as int, all.take(i as int)),
            forall|k: int|
                0 <= k < runs@.len() ==> (#[trigger] runs@[k])@.offset >= start && runs@[k]@.end()
                    <= start + base.len(),
        decreases runs@.len() - i,
    {
        let run: &WriteRange = &runs[i];
        let size: usize = buf.len();
        assert(run.offset - start + run.data@.len() <= size);
        let at: usize = (run.offset - start) as usize;
        let ghost before = buf@;
        let mut j: usize = 0;
        while j < run.data.len()
            invariant
                j <= run.data@.len(),
                buf@.len() == before.len(),
                at + run.data@.len() <= before.len(),
                before.len() == size,
                forall|k: int|
                    0 <= k < before.len() ==> #[trigger] buf@[k] == (if at <= k < at + j {
                        run.data@[k - at]
                    } else {
                        before[k]
                    }),
            decreases run.data@.len() - j,
        {
            let byte: u8 = run.data[j];
            buf.set(at + j, byte);
            j += 1;
        }
        proof {
            assert(all.take(i + 1).drop_last() =~= all.take(i as int));
            assert(all.take(i + 1).last() == run@);
            assert(buf@ =~= merged_bytes(base, start as int, all.take(i + 1)));
        }
        applied = true;
        i += 1;
    }
    assert(all.take(i as int) =~= all);
    applied
}

/// Largest end over all ranges, saturating at the largest position.
pub fn largest_end(ranges: &Vec<WriteRange>) -> (result: Option<u64>)
    ensures
        match (result, max_end(range_models(ranges@))) {
            (None, None) => true,
            (Some(end), Some(exact)) => end == (if exact > u64::MAX { u64::MAX as int } else { exact }),
            _ => false,
        },
{
    let ghost all = range_models(ranges@);
    let mut result: Option<u64> = None;
    let mut i: usize = 0;
    while i < ranges.len()
        invariant
            i <= ranges@.len(),
            all == range_models(ranges@),
            match (result, max_end(all.take(i as int))) {
                (None, None) => true,
                (Some(end), Some(exact)) => end == (if exact > u64::MAX {
                    u64::MAX as int
                } else {
                    exact
                }),
                _ => false,
            },
        decreases ranges@.len() - i,
    {
        let range: &WriteRange = &ranges[i];
        assert(all[i as int] == range@);
        assert(all.take(i + 1).drop_last() =~= all.take(i as int));
        let end: u64 = range.offset.saturating_add(range.data.len() as u64);
        result = match result {
            Some(other) if other > end => Some(other),
            _ => Some(end),
        };
        i += 1;
    }
    assert(all.take(i as int) =~= all);
    result
}

} // verus!
