//! Writes and timestamps of one inode that wait for the next group commit.
use crate::error::{Error, is_internal};
use crate::ranges::{RangeModel, WriteRange, range_models, total_len, total_len_of_concat};
use crate::stats::Stats;
use crate::text::{join, texts};
use vstd::prelude::*;

verus! {

/// Explicitly-set timestamps that wait to be committed with the pending data of
/// their inode. Each is a pair of seconds and nanoseconds.
#[derive(Debug, Clone, Copy, PartialEq, Eq, Default)]
pub struct PendingTimeChange {
    pub atime: Option<(i64, i64)>,
    pub mtime: Option<(i64, i64)>,
    pub ctime: Option<(i64, i64)>,
}

/// `newer` where it is set, `older` otherwise.
pub open spec fn newer_wins(older: Option<(i64, i64)>, newer: Option<(i64, i64)>) -> Option<
    (i64, i64),
> {
    if newer is Some {
        newer
    } else {
        older
    }
}

impl PendingTimeChange {
    pub open spec fn no_change() -> PendingTimeChange {
        PendingTimeChange { atime: None, mtime: None, ctime: None }
    }

    /// Field-wise merge in which the fields set by `newer` win.
    pub open spec fn merged_with(self, newer: PendingTimeChange) -> PendingTimeChange {
        PendingTimeChange {
            atime: newer_wins(self.atime, newer.atime),
            mtime: newer_wins(self.mtime, newer.mtime),
            ctime: newer_wins(self.ctime, newer.ctime),
        }
    }

    /// The fields that a later data write leaves alone.
    pub open spec fn after_write(self) -> PendingTimeChange {
        PendingTimeChange { atime: self.atime, mtime: None, ctime: None }
    }

    /// The fields that differ from those of `applied`.
    pub open spec fn without_applied(self, applied: PendingTimeChange) -> PendingTimeChange {
        PendingTimeChange {
            atime: if self.atime == applied.atime {
                None
            } else {
                self.atime
            },
            mtime: if self.mtime == applied.mtime {
                None
            } else {
                self.mtime
            },
            ctime: if self.ctime == applied.ctime {
                None
            } else {
                self.ctime
            },
        }
    }

    /// `stats` with the set fields laid over it.
    pub open spec fn over(self, stats: Stats) -> Stats {
        let with_atime = match self.atime {
            Some(t) => Stats { atime: t.0, atime_nsec: t.1 as u32, ..stats },
            None => stats,
        };
        let with_mtime = match self.mtime {
            Some(t) => Stats { mtime: t.0, mtime_nsec: t.1 as u32, ..with_atime },
            None => with_atime,
        };
        match self.ctime {
            Some(t) => Stats { ctime: t.0, ctime_nsec: t.1 as u32, ..with_mtime },
            None => with_mtime,
        }
    }

    pub fn is_empty(&self) -> (empty: bool)
        ensures
            empty == (*self == PendingTimeChange::no_change()),
    {
        self.atime.is_none() && self.mtime.is_none() && self.ctime.is_none()
    }

    /// Per-field merge: fields set by `newer` override ours.
    pub fn apply(&mut self, newer: &PendingTimeChange)
        ensures
            *final(self) == old(self).merged_with(*newer),
    {
        if newer.atime.is_some() {
            self.atime = newer.atime;
        }
        if newer.mtime.is_some() {
            self.mtime = newer.mtime;
        }
        if newer.ctime.is_some() {
            self.ctime = newer.ctime;
        }
    }

    /// Drops the fields that a buffered data write stamps again. An explicitly
    /// set access time survives.
    pub fn clear_write_stamped(&mut self)
        ensures
            *final(self) == old(self).after_write(),
    {
        self.mtime = None;
        self.ctime = None;
    }

    /// Lays the stashed values over attributes read from the database.
    pub fn merge_into(&self, stats: &mut Stats)
        ensures
            *final(stats) == self.over(*old(stats)),
    {
        if let Some((secs, nsec)) = self.atime {
            stats.atime = secs;
            stats.atime_nsec = #[verifier::truncate]
            (nsec as u32);
        }
        if let Some((secs, nsec)) = self.mtime {
            stats.mtime = secs;
            stats.mtime_nsec = #[verifier::truncate]
            (nsec as u32);
        }
        if let Some((secs, nsec)) = self.ctime {
            stats.ctime = secs;
            stats.ctime_nsec = #[verifier::truncate]
            (nsec as u32);
        }
    }
}

fn same_stamp(a: Option<(i64, i64)>, b: Option<(i64, i64)>) -> (same: bool)
    ensures
        same == (a == b),
{
    match (a, b) {
        (None, None) => true,
        (Some((secs, nsec)), Some((other_secs, other_nsec))) => secs == other_secs && nsec
            == other_nsec,
        _ => false,
    }
}

/// Drops the fields of `times` that equal those of `applied`.
pub fn clear_applied(times: &mut PendingTimeChange, applied: &PendingTimeChange)
    ensures
        *final(times) == old(times).without_applied(*applied),
{
    if same_stamp(times.atime, applied.atime) {
        times.atime = None;
    }
    if same_stamp(times.mtime, applied.mtime) {
        times.mtime = None;
    }
    if same_stamp(times.ctime, applied.ctime) {
        times.ctime = None;
    }
}

/// Two SET fragments of one timestamp.
pub open spec fn stamp_fragments(column: Seq<char>, stamp: Option<(i64, i64)>) -> Seq<Seq<char>> {
    if stamp is Some {
        seq![column + " = ?"@, column + "_nsec = ?"@]
    } else {
        Seq::empty()
    }
}

/// The values bound to the fragments of one timestamp.
pub open spec fn stamp_values(stamp: Option<(i64, i64)>) -> Seq<i64> {
    match stamp {
        Some(t) => seq![t.0, t.1],
        None => Seq::empty(),
    }
}

/// SET fragments of the timestamps that are set, in column order.
pub open spec fn time_fragments(times: PendingTimeChange) -> Seq<Seq<char>> {
    stamp_fragments("atime"@, times.atime) + stamp_fragments("mtime"@, times.mtime)
        + stamp_fragments("ctime"@, times.ctime)
}

/// The values bound to [`time_fragments`].
pub open spec fn time_values(times: PendingTimeChange) -> Seq<i64> {
    stamp_values(times.atime) + stamp_values(times.mtime) + stamp_values(times.ctime)
}

/// Time columns to set, with the values to bind.
pub struct TimeSets {
    pub sets: Vec<&'static str>,
    pub values: Vec<i64>,
}

impl TimeSets {
    /// These are exactly the columns and values of `times`.
    pub open spec fn sets_times(self, times: PendingTimeChange) -> bool {
        &&& texts(self.sets@) == time_fragments(times)
        &&& self.values@ == time_values(times)
    }
}

pub fn time_sets(times: &PendingTimeChange) -> (out: TimeSets)
    ensures
        out.sets_times(*times),
{
    let mut sets: Vec<&'static str> = Vec::new();
    let mut values: Vec<i64> = Vec::new();
    proof {
        reveal_strlit("atime");
        reveal_strlit("mtime");
        reveal_strlit("ctime");
        reveal_strlit(" = ?");
        reveal_strlit("_nsec = ?");
        reveal_strlit("atime = ?");
        reveal_strlit("atime_nsec = ?");
        reveal_strlit("mtime = ?");
        reveal_strlit("mtime_nsec = ?");
        reveal_strlit("ctime = ?");
        reveal_strlit("ctime_nsec = ?");
        assert("atime = ?"@ =~= "atime"@ + " = ?"@);
        assert("atime_nsec = ?"@ =~= "atime"@ + "_nsec = ?"@);
        assert("mtime = ?"@ =~= "mtime"@ + " = ?"@);
        assert("mtime_nsec = ?"@ =~= "mtime"@ + "_nsec = ?"@);
        assert("ctime = ?"@ =~= "ctime"@ + " = ?"@);
        assert("ctime_nsec = ?"@ =~= "ctime"@ + "_nsec = ?"@);
    }
    if let Some((secs, nsec)) = times.atime {
        sets.push("atime = ?");
        values.push(secs);
        sets.push("atime_nsec = ?");
        values.push(nsec);
    }
    assert(texts(sets@) =~= stamp_fragments("atime"@, times.atime));
    assert(values@ =~= stamp_values(times.atime));
    if let Some((secs, nsec)) = times.mtime {
        sets.push("mtime = ?");
        values.push(secs);
        sets.push("mtime_nsec = ?");
        values.push(nsec);
    }
    assert(texts(sets@) =~= stamp_fragments("atime"@, times.atime) + stamp_fragments(
        "mtime"@,
        times.mtime,
    ));
    assert(values@ =~= stamp_values(times.atime) + stamp_values(times.mtime));
    if let Some((secs, nsec)) = times.ctime {
        sets.push("ctime = ?");
        values.push(secs);
        sets.push("ctime_nsec = ?");
        values.push(nsec);
    }
    assert(texts(sets@) =~= time_fragments(*times));
    assert(values@ =~= time_values(*times));
    TimeSets { sets, values }
}

/// The explicit times of a commit, or none.
pub open spec fn explicit_or_none(explicit_times: Option<PendingTimeChange>) -> PendingTimeChange {
    match explicit_times {
        Some(times) => times,
        None => PendingTimeChange::no_change(),
    }
}

/// Whether a data commit stamps a column with the time of the commit.
pub open spec fn stamp_needed(
    preserve_times: bool,
    explicit_times: Option<PendingTimeChange>,
) -> bool {
    let explicit = explicit_or_none(explicit_times);
    !preserve_times && (explicit.mtime is None || explicit.ctime is None)
}

/// The times that a data commit writes: an explicit value wins; without one the
/// modification and change times get the stamp of the commit unless times are to
/// be preserved; the access time is only ever written explicitly.
pub open spec fn commit_times(
    preserve_times: bool,
    explicit_times: Option<PendingTimeChange>,
    stamp: Option<(i64, i64)>,
) -> PendingTimeChange {
    let explicit = explicit_or_none(explicit_times);
    let used = if preserve_times {
        None
    } else {
        stamp
    };
    PendingTimeChange {
        atime: explicit.atime,
        mtime: if explicit.mtime is Some {
            explicit.mtime
        } else {
            used
        },
        ctime: if explicit.ctime is Some {
            explicit.ctime
        } else {
            used
        },
    }
}

/// Whether [`write_commit_time_sets`] needs the current time.
pub fn needs_commit_stamp(
    preserve_times: bool,
    explicit_times: Option<PendingTimeChange>,
) -> (needed: bool)
    ensures
        needed == stamp_needed(preserve_times, explicit_times),
{
    let (mtime, ctime) = match explicit_times {
        Some(times) => (times.mtime.is_some(), times.ctime.is_some()),
        None => (false, false),
    };
    !preserve_times && (!mtime || !ctime)
}

/// The time columns of a batched data commit, so that stashed explicit times ride
/// the same statement as size, storage and data.
pub fn write_commit_time_sets(
    preserve_times: bool,
    explicit_times: Option<PendingTimeChange>,
    stamp: Option<(i64, i64)>,
) -> (out: TimeSets)
    requires
        stamp_needed(preserve_times, explicit_times) ==> stamp is Some,
    ensures
        out.sets_times(commit_times(preserve_times, explicit_times, stamp)),
{
    let explicit = match explicit_times {
        Some(times) => times,
        None => PendingTimeChange { atime: None, mtime: None, ctime: None },
    };
    let used: Option<(i64, i64)> = if preserve_times {
        None
    } else {
        stamp
    };
    let times = PendingTimeChange {
        atime: explicit.atime,
        mtime: if explicit.mtime.is_some() {
            explicit.mtime
        } else {
            used
        },
        ctime: if explicit.ctime.is_some() {
            explicit.ctime
        } else {
            used
        },
    };
    time_sets(&times)
}

/// One statement with its bound integers.
pub struct BoundStatement {
    pub sql: String,
    pub values: Vec<i64>,
}

/// The statement that commits stashed times of an inode without data to write, or
/// none when no time is set.
pub fn pending_times_update(ino: i64, times: &PendingTimeChange) -> (result: Option<BoundStatement>)
    ensures
        match result {
            Some(statement) => {
                &&& *times != PendingTimeChange::no_change()
                &&& statement.sql@ == "UPDATE fs_inode SET "@ + crate::text::joined(
                    time_fragments(*times),
                    ", "@,
                ) + " WHERE ino = ?"@
                &&& statement.values@ == time_values(*times).push(ino)
            },
            None => *times == PendingTimeChange::no_change(),
        },
{
    if times.is_empty() {
        return None;
    }
    let mut sets = time_sets(times);
    sets.values.push(ino);
    let mut sql: String = "UPDATE fs_inode SET ".to_owned();
    sql.append(join(&sets.sets, ", ").as_str());
    sql.append(" WHERE ino = ?");
    Some(BoundStatement { sql, values: sets.values })
}

/// Data ranges and timestamps of one inode that wait for a commit.
#[derive(Debug)]
pub struct PendingInodeWrites {
    pub ranges: Vec<WriteRange>,
    pub pending_bytes: usize,
    pub generation: u64,
    /// Set when attributes were changed explicitly after the latest write: the
    /// commit must then keep the modification and change times.
    pub times_explicit: bool,
    /// Explicit times that wait to be committed together with the data.
    pub pending_times: Option<PendingTimeChange>,
}

/// The pending state of one inode as a mathematical value.
#[verifier::ext_equal]
pub struct PendingModel {
    pub ranges: Seq<RangeModel>,
    pub pending_bytes: nat,
    pub generation: u64,
    pub times_explicit: bool,
    pub pending_times: Option<PendingTimeChange>,
}

impl View for PendingInodeWrites {
    type V = PendingModel;

    open spec fn view(&self) -> PendingModel {
        PendingModel {
            ranges: range_models(self.ranges@),
            pending_bytes: self.pending_bytes as nat,
            generation: self.generation,
            times_explicit: self.times_explicit,
            pending_times: self.pending_times,
        }
    }
}

/// What is left of stashed times after a data write.
pub open spec fn times_after_write(times: Option<PendingTimeChange>) -> Option<PendingTimeChange> {
    match times {
        Some(t) => if t.after_write() == PendingTimeChange::no_change() {
            None
        } else {
            Some(t.after_write())
        },
        None => None,
    }
}

impl PendingModel {
    /// An entry that holds nothing yet.
    pub open spec fn fresh(generation: u64) -> PendingModel {
        PendingModel {
            ranges: Seq::empty(),
            pending_bytes: 0,
            generation,
            times_explicit: false,
            pending_times: None,
        }
    }

    /// The byte count is that of the ranges, no range is empty, and stashed times
    /// set at least one field.
    pub open spec fn wf(self) -> bool {
        &&& self.pending_bytes == total_len(self.ranges)
        &&& forall|i: int|
            0 <= i < self.ranges.len() ==> (#[trigger] self.ranges[i]).bytes.len() > 0
                && self.ranges[i].offset >= 0
        &&& self.pending_times is Some ==> self.pending_times->0 != PendingTimeChange::no_change()
    }

    /// Nothing is left to commit.
    pub open spec fn drained(self) -> bool {
        self.ranges.len() == 0 && self.pending_times is None
    }

    /// The entry after `ranges` were appended.
    pub open spec fn with_ranges(self, ranges: Seq<RangeModel>) -> PendingModel {
        self.with_counted(ranges, total_len(ranges))
    }

    /// The entry after `ranges` were appended that are counted as `byte_count` bytes.
    pub open spec fn with_counted(self, ranges: Seq<RangeModel>, byte_count: nat) -> PendingModel {
        PendingModel {
            ranges: self.ranges + ranges,
            pending_bytes: self.pending_bytes + byte_count,
            generation: self.generation,
            times_explicit: false,
            pending_times: times_after_write(self.pending_times),
        }
    }

    pub open spec fn with_generation(self, generation: u64) -> PendingModel {
        PendingModel { generation, ..self }
    }
}

impl PendingInodeWrites {
    pub fn new(generation: u64) -> (entry: Self)
        ensures
            entry@ == PendingModel::fresh(generation),
            entry@.wf(),
    {
        let entry = PendingInodeWrites {
            ranges: Vec::new(),
            pending_bytes: 0,
            generation,
            times_explicit: false,
            pending_times: None,
        };
        assert(range_models(entry.ranges@) =~= Seq::<RangeModel>::empty());
        entry
    }

    pub fn bump_generation(&mut self, generation: u64)
        ensures
            final(self)@ == old(self)@.with_generation(generation),
    {
        self.generation = generation;
    }

    /// True when nothing is left to commit for this inode: only then may the entry
    /// be dropped.
    pub fn is_drained(&self) -> (drained: bool)
        ensures
            drained == self@.drained(),
    {
        self.ranges.len() == 0 && self.pending_times.is_none()
    }

    /// Appends ranges and counts them as `byte_count` bytes. Refused, with nothing
    /// changed, when the byte count of the entry would overflow.
    pub fn push_ranges(&mut self, ranges: Vec<WriteRange>, byte_count: usize) -> (result: Result<
        (),
        Error,
    >)
        ensures
            match result {
                Ok(_) => {
                    &&& old(self).pending_bytes + byte_count <= usize::MAX
                    &&& final(self)@ == old(self)@.with_counted(
                        range_models(ranges@),
                        byte_count as nat,
                    )
                },
                Err(error) => {
                    &&& old(self).pending_bytes + byte_count > usize::MAX
                    &&& final(self)@ == old(self)@
                    &&& is_internal(error, "batched write byte count overflow"@)
                },
            },
    {
        let ghost before = range_models(self.ranges@);
        let ghost added = range_models(ranges@);
        match self.pending_bytes.checked_add(byte_count) {
            Some(pending_bytes) => {
                self.pending_bytes = pending_bytes;
            },
            None => {
                return Err(Error::Internal("batched write byte count overflow".to_owned()));
            },
        }
        self.times_explicit = false;
        if let Some(times) = self.pending_times {
            let mut left = times;
            left.clear_write_stamped();
            if left.is_empty() {
                self.pending_times = None;
            } else {
                self.pending_times = Some(left);
            }
        }
        let mut ranges = ranges;
        self.ranges.append(&mut ranges);
        assert(range_models(self.ranges@) =~= before + added);
        Ok(())
    }
}

/// Appending non-empty ranges keeps an entry well-formed.
pub proof fn with_ranges_keeps_wf(entry: PendingModel, ranges: Seq<RangeModel>)
    requires
        entry.wf(),
        forall|i: int|
            0 <= i < ranges.len() ==> (#[trigger] ranges[i]).bytes.len() > 0 && ranges[i].offset
                >= 0,
    ensures
        entry.with_ranges(ranges).wf(),
{
    total_len_of_concat(entry.ranges, ranges);
    let all = entry.ranges + ranges;
    assert forall|i: int| 0 <= i < all.len() implies (#[trigger] all[i]).bytes.len() > 0
        && all[i].offset >= 0 by {
        if i < entry.ranges.len() {
            assert(all[i] == entry.ranges[i]);
        } else {
            assert(all[i] == ranges[i - entry.ranges.len()]);
        }
    }
}

} // verus!
