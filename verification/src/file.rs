//! An open file: where its reads come from and where its writes go.
use crate::batcher::{AgentFSWriteBatcher, EnqueueOutcome};
use crate::batcher_state::BatcherModel;
use crate::config::Geometry;
use crate::error::FsError;
use crate::ranges::{WriteRange, ends_fit, max_end, written_byte};
use crate::stats::Stats;
use vstd::prelude::*;

verus! {

/// Makes commits durable before a checkpoint.
pub const DURABLE_SYNCHRONOUS_SQL: &'static str = "PRAGMA synchronous = FULL";

/// Durability of commits outside a checkpoint.
pub const BASELINE_SYNCHRONOUS_SQL: &'static str = "PRAGMA synchronous = NORMAL";

/// Moves the write-ahead log into the database.
pub const WAL_CHECKPOINT_SQL: &'static str = "PRAGMA wal_checkpoint(TRUNCATE)";

/// An open file handle.
#[derive(Debug, Clone, Copy)]
pub struct AgentFSFile {
    pub ino: i64,
    pub chunk_size: usize,
    pub inline_threshold: usize,
    /// Whether reads see writes that wait in the batcher.
    pub overlay_reads: bool,
    /// Whether there is a batcher.
    pub batched: bool,
}

/// The part of a file that a read returns and the part of that in the database.
#[derive(Debug, Clone, Copy, PartialEq, Eq, Structural)]
pub struct ReadWindow {
    /// Number of bytes that the read returns.
    pub read_size: u64,
    /// Number of those that the database can hold, from the start of the window.
    pub base_window: u64,
}

/// Where a write goes.
#[derive(Debug, Clone, Copy, PartialEq, Eq, Structural)]
pub enum WriteRoute {
    /// There is nothing to write.
    Nothing,
    /// It waits in the batcher.
    Queue,
    /// It is committed at once, after what waits.
    Direct,
}

/// What to commit after a write was queued.
#[derive(Debug, Clone, Copy, PartialEq, Eq, Structural)]
pub enum AfterEnqueue {
    Nothing,
    DrainInode,
    DrainAll,
}

impl BatcherModel {
    /// The length of a file of which `committed` bytes are in the database.
    pub open spec fn file_len(self, ino: i64, committed: int) -> int {
        match max_end(self.ranges_of(ino)) {
            Some(end) => if end > committed {
                end
            } else {
                committed
            },
            None => committed,
        }
    }

    /// The contents of a file: pending bytes where there are any, else what is in the
    /// database, else zero.
    pub open spec fn file_view(self, ino: i64, committed: Seq<u8>) -> Seq<u8> {
        Seq::new(
            self.file_len(ino, committed.len() as int) as nat,
            |pos: int|
                match written_byte(self.ranges_of(ino), pos) {
                    Some(byte) => byte,
                    None => if pos < committed.len() {
                        committed[pos]
                    } else {
                        0
                    },
                },
        )
    }
}

/// The bytes of `contents` that a read of `size` bytes at `offset` returns.
pub open spec fn read_of(contents: Seq<u8>, offset: int, size: int) -> Seq<u8> {
    if offset >= contents.len() || size <= 0 {
        Seq::empty()
    } else if offset + size > contents.len() {
        contents.subrange(offset, contents.len() as int)
    } else {
        contents.subrange(offset, offset + size)
    }
}

/// Whether there is a byte to write.
pub open spec fn has_data(ranges: Seq<WriteRange>) -> bool {
    exists|i: int| 0 <= i < ranges.len() && (#[trigger] ranges[i]).data@.len() > 0
}

fn some_data(ranges: &Vec<WriteRange>) -> (yes: bool)
    ensures
        yes == has_data(ranges@),
{
    let mut i: usize = 0;
    while i < ranges.len()
        invariant
            i <= ranges@.len(),
            forall|k: int| 0 <= k < i ==> (#[trigger] ranges@[k]).data@.len() == 0,
        decreases ranges@.len() - i,
    {
        if ranges[i].data.len() > 0 {
            return true;
        }
        i += 1;
    }
    false
}

impl AgentFSFile {
    /// Whether pending writes have to be committed before a read.
    pub fn drains_before_read(&self) -> (yes: bool)
        ensures
            yes == !self.overlay_reads,
    {
        !self.overlay_reads
    }

    /// The end of the pending writes that a read lays over the database, if any.
    pub fn pending_end(&self, batcher: Option<&AgentFSWriteBatcher>) -> (end: Option<u64>)
        ensures
            match batcher {
                Some(view) if self.overlay_reads => match (end, max_end(view@.ranges_of(self.ino))) {
                    (None, None) => true,
                    (Some(found), Some(exact)) => found == (if exact > u64::MAX {
                        u64::MAX as int
                    } else {
                        exact
                    }),
                    _ => false,
                },
                _ => end is None,
            },
    {
        match batcher {
            Some(view) => if self.overlay_reads && view.has_pending(self.ino) {
                view.pending_max_end(self.ino)
            } else if self.overlay_reads {
                assert(view@.ranges_of(self.ino).len() == 0);
                None
            } else {
                None
            },
            None => None,
        }
    }

    /// The window of a read of `size` bytes at `offset`, or nothing when it lies beyond
    /// the end of the file.
    pub fn read_window(
        &self,
        offset: u64,
        size: u64,
        committed_size: u64,
        pending_end: Option<u64>,
    ) -> (window: Option<ReadWindow>)
        ensures
            ({
                let len = match pending_end {
                    Some(end) => if end > committed_size {
                        end
                    } else {
                        committed_size
                    },
                    None => committed_size,
                };
                match window {
                    None => size == 0 || offset >= len,
                    Some(w) => {
                        &&& size > 0
                        &&& offset < len
                        &&& w.read_size == if size < len - offset {
                            size as int
                        } else {
                            len - offset
                        }
                        &&& w.base_window == if offset >= committed_size {
                            0
                        } else if committed_size - offset < w.read_size {
                            committed_size - offset
                        } else {
                            w.read_size as int
                        }
                    },
                }
            }),
    {
        if size == 0 {
            return None;
        }
        let len: u64 = match pending_end {
            Some(end) => if end > committed_size {
                end
            } else {
                committed_size
            },
            None => committed_size,
        };
        if offset >= len {
            return None;
        }
        let read_size: u64 = if size < len - offset {
            size
        } else {
            len - offset
        };
        let base_window: u64 = if offset < committed_size {
            if committed_size - offset < read_size {
                committed_size - offset
            } else {
                read_size
            }
        } else {
            0
        };
        Some(ReadWindow { read_size, base_window })
    }

    /// The bytes that a read returns, from the bytes `base` of the window in the database.
    pub fn finish_read(
        &self,
        window: ReadWindow,
        offset: u64,
        base: Vec<u8>,
        batcher: Option<&AgentFSWriteBatcher>,
        pending_end: Option<u64>,
    ) -> (bytes: Vec<u8>)
        requires
            batcher matches Some(view) ==> view.wf(),
            base@.len() == window.base_window,
            window.base_window <= window.read_size <= usize::MAX,
        ensures
            ({
                let padded = base@ + Seq::new(
                    (window.read_size - window.base_window) as nat,
                    |i: int| 0u8,
                );
                bytes@ == match (batcher, pending_end) {
                    (Some(view), Some(_)) => view@.read_over(self.ino, offset as int, padded),
                    _ => padded,
                }
            }),
    {
        let mut bytes = base;
        let ghost start = bytes@;
        let wanted: usize = window.read_size as usize;
        bytes.resize(wanted, 0);
        assert(bytes@ =~= start + Seq::new(
            (window.read_size - window.base_window) as nat,
            |i: int| 0u8,
        ));
        if let Some(view) = batcher {
            if pending_end.is_some() {
                let _hit = view.overlay_read(self.ino, offset, &mut bytes);
            }
        }
        bytes
    }

    /// Where a write of one run of bytes goes.
    pub fn write_route(&self, len: usize) -> (route: WriteRoute)
        ensures
            route == if len == 0 {
                WriteRoute::Nothing
            } else if self.batched && self.overlay_reads {
                WriteRoute::Queue
            } else {
                WriteRoute::Direct
            },
    {
        if len == 0 {
            WriteRoute::Nothing
        } else if self.batched && self.overlay_reads {
            WriteRoute::Queue
        } else {
            WriteRoute::Direct
        }
    }

    /// Where a write of several ranges goes.
    pub fn ranges_route(&self, ranges: &Vec<WriteRange>) -> (route: WriteRoute)
        ensures
            route == if !has_data(ranges@) {
                WriteRoute::Nothing
            } else if self.batched && self.overlay_reads {
                WriteRoute::Queue
            } else {
                WriteRoute::Direct
            },
    {
        if !some_data(ranges) {
            WriteRoute::Nothing
        } else if self.batched && self.overlay_reads {
            WriteRoute::Queue
        } else {
            WriteRoute::Direct
        }
    }

    /// Where a write of several ranges goes that may wait whenever there is a batcher.
    pub fn batched_route(&self, ranges: &Vec<WriteRange>) -> (route: WriteRoute)
        ensures
            route == if !has_data(ranges@) {
                WriteRoute::Nothing
            } else if self.batched {
                WriteRoute::Queue
            } else {
                WriteRoute::Direct
            },
    {
        if !some_data(ranges) {
            WriteRoute::Nothing
        } else if self.batched {
            WriteRoute::Queue
        } else {
            WriteRoute::Direct
        }
    }

    /// What to commit after a write was queued.
    pub fn finish_enqueue(outcome: &EnqueueOutcome) -> (after: AfterEnqueue)
        ensures
            after == if outcome.drain_all {
                AfterEnqueue::DrainAll
            } else if outcome.drain_inode {
                AfterEnqueue::DrainInode
            } else {
                AfterEnqueue::Nothing
            },
    {
        if outcome.drain_all {
            AfterEnqueue::DrainAll
        } else if outcome.drain_inode {
            AfterEnqueue::DrainInode
        } else {
            AfterEnqueue::Nothing
        }
    }

    /// How contents of this file are laid out.
    pub fn geometry(&self) -> (geometry: Geometry)
        ensures
            geometry.chunk_size == self.chunk_size,
            geometry.inline_threshold == self.inline_threshold,
    {
        Geometry { chunk_size: self.chunk_size, inline_threshold: self.inline_threshold }
    }

    /// The statements of a sync, in order, once pending writes are committed.
    pub fn sync_statements() -> (statements: Vec<&'static str>)
        ensures
            crate::text::texts(statements@) == seq![
                DURABLE_SYNCHRONOUS_SQL@,
                WAL_CHECKPOINT_SQL@,
                BASELINE_SYNCHRONOUS_SQL@,
            ],
    {
        let mut statements: Vec<&'static str> = Vec::new();
        statements.push(DURABLE_SYNCHRONOUS_SQL);
        statements.push(WAL_CHECKPOINT_SQL);
        statements.push(BASELINE_SYNCHRONOUS_SQL);
        assert(crate::text::texts(statements@) =~= seq![
            DURABLE_SYNCHRONOUS_SQL@,
            WAL_CHECKPOINT_SQL@,
            BASELINE_SYNCHRONOUS_SQL@,
        ]);
        statements
    }
}

/// The attributes of an open file, from its row.
pub fn found_stats(row: Option<Stats>) -> (result: Result<Stats, FsError>)
    ensures
        result == match row {
            Some(stats) => Ok::<Stats, FsError>(stats),
            None => Err(FsError::NotFound),
        },
{
    match row {
        Some(stats) => Ok(stats),
        None => Err(FsError::NotFound),
    }
}

/// A read returns the contents of the file as writers left them: pending bytes win over
/// the database, gaps read as zero, and nothing lies beyond the end.
pub proof fn a_read_returns_the_file_view(
    model: BatcherModel,
    ino: i64,
    committed: Seq<u8>,
    offset: u64,
    size: u64,
    window: ReadWindow,
    bytes: Seq<u8>,
)
    requires
        ends_fit(model.ranges_of(ino)),
        committed.len() <= u64::MAX,
        size > 0,
        offset < model.file_len(ino, committed.len() as int),
        window.read_size == if size < model.file_len(ino, committed.len() as int) - offset {
            size as int
        } else {
            model.file_len(ino, committed.len() as int) - offset
        },
        window.base_window == if offset >= committed.len() {
            0
        } else if committed.len() - offset < window.read_size {
            committed.len() - offset
        } else {
            window.read_size as int
        },
        ({
            let padded = (if window.base_window == 0 {
                Seq::<u8>::empty()
            } else {
                committed.subrange(offset as int, offset + window.base_window)
            }) + Seq::new((window.read_size - window.base_window) as nat, |i: int| 0u8);
            bytes == model.read_over(ino, offset as int, padded)
        }),
    ensures
        bytes == read_of(model.file_view(ino, committed), offset as int, size as int),
{
    let contents = model.file_view(ino, committed);
    let ranges = model.ranges_of(ino);
    let padded = (if window.base_window == 0 {
        Seq::<u8>::empty()
    } else {
        committed.subrange(offset as int, offset + window.base_window)
    }) + Seq::new((window.read_size - window.base_window) as nat, |i: int| 0u8);
    let expected = read_of(contents, offset as int, size as int);
    assert(model.file_len(ino, committed.len() as int) <= u64::MAX) by {
        lemma_file_len_fits(ranges);
    }
    assert(padded.len() == window.read_size);
    assert(expected.len() == window.read_size);
    assert forall|i: int| 0 <= i < expected.len() implies bytes[i] == #[trigger] expected[i] by {
        assert(expected[i] == contents[offset + i]);
    }
    assert(bytes =~= expected);
}

proof fn lemma_file_len_fits(ranges: Seq<crate::ranges::RangeModel>)
    requires
        ends_fit(ranges),
    ensures
        max_end(ranges) matches Some(end) ==> end <= u64::MAX,
    decreases ranges.len(),
{
    if ranges.len() > 0 {
        assert(ranges[ranges.len() - 1].end() <= u64::MAX);
        let head = ranges.drop_last();
        assert forall|i: int| 0 <= i < head.len() implies (#[trigger] head[i]).end()
            <= u64::MAX by {
            assert(head[i] == ranges[i]);
        }
        lemma_file_len_fits(head);
    }
}

} // verus!
