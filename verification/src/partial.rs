//! Delta files that hold only the chunks in which they differ from a base file.
use crate::error::{Error, FsError, is_internal};
use crate::sql::{SqlModel, SqlStatement, SqlValue, models};
use vstd::prelude::*;

verus! {

/// The base file under a delta file, with what identified its contents when the delta
/// file was made.
#[derive(Debug, Clone)]
pub struct PartialOrigin {
    pub base_path: String,
    pub base_fingerprint_size: i64,
    pub base_mtime: i64,
    pub base_mtime_nsec: u32,
    pub base_ctime: i64,
    pub base_ctime_nsec: u32,
}

/// The integer in a cell, or a default.
pub open spec fn integer_or(value: SqlModel, default: i64) -> i64 {
    match value {
        SqlModel::Integer(n) => n,
        _ => default,
    }
}

fn integer_else(value: &SqlValue, default: i64) -> (n: i64)
    ensures
        n == integer_or(value@, default),
{
    match value.as_integer() {
        Some(n) => n,
        None => default,
    }
}

/// Reads a row of `fs_partial_origin`: path, size, fingerprint size, and the seconds and
/// nanoseconds of both times. A fingerprint size that is missing or negative is the size.
pub fn partial_origin_from_row(row: &Vec<SqlValue>) -> (result: Result<PartialOrigin, Error>)
    requires
        row@.len() == 7,
    ensures
        ({
            let v = models(row@);
            if !(v[0] is Text) {
                result matches Err(error) && is_internal(
                    error,
                    "invalid partial origin base_path"@,
                )
            } else if !(v[1] is Integer) {
                result matches Err(error) && is_internal(
                    error,
                    "invalid partial origin base_size"@,
                )
            } else {
                result matches Ok(origin) && {
                    let size = v[1]->Integer_0;
                    let fingerprint = integer_or(v[2], size);
                    &&& origin.base_path@ == v[0]->Text_0
                    &&& origin.base_fingerprint_size == if fingerprint < 0 {
                        size
                    } else {
                        fingerprint
                    }
                    &&& origin.base_mtime == integer_or(v[3], 0)
                    &&& origin.base_mtime_nsec == integer_or(v[4], 0) as u32
                    &&& origin.base_ctime == integer_or(v[5], 0)
                    &&& origin.base_ctime_nsec == integer_or(v[6], 0) as u32
                }
            }
        }),
{
    assert(forall|i: int| 0 <= i < 7 ==> #[trigger] models(row@)[i] == row@[i]@);
    let base_path: String = match row[0].as_text() {
        Some(path) => path,
        None => {
            return Err(Error::Internal("invalid partial origin base_path".to_owned()));
        },
    };
    let base_size: i64 = match row[1].as_integer() {
        Some(size) => size,
        None => {
            return Err(Error::Internal("invalid partial origin base_size".to_owned()));
        },
    };
    let fingerprint: i64 = integer_else(&row[2], base_size);
    Ok(
        PartialOrigin {
            base_path,
            base_fingerprint_size: if fingerprint < 0 {
                base_size
            } else {
                fingerprint
            },
            base_mtime: integer_else(&row[3], 0),
            base_mtime_nsec: #[verifier::truncate]
            (integer_else(&row[4], 0) as u32),
            base_ctime: integer_else(&row[5], 0),
            base_ctime_nsec: #[verifier::truncate]
            (integer_else(&row[6], 0) as u32),
        },
    )
}

/// What a file that lies over a base file consists of.
#[verifier::ext_equal]
pub struct PartialModel {
    pub chunk_size: nat,
    /// Length of the file.
    pub size: nat,
    /// How much of the base file still shows.
    pub base_size: nat,
    /// Contents of the base file.
    pub base: Seq<u8>,
    /// Contents of the chunks that the delta holds.
    pub overrides: Map<nat, Seq<u8>>,
}

impl PartialModel {
    /// The byte at a position: that of the delta in a chunk it holds, else that of the
    /// base as far as it shows, else zero.
    pub open spec fn byte(self, pos: int) -> u8 {
        let index = (pos / self.chunk_size as int) as nat;
        let within = pos % self.chunk_size as int;
        if self.overrides.contains_key(index) {
            if within < self.overrides[index].len() {
                self.overrides[index][within]
            } else {
                0
            }
        } else if pos < self.base_size && pos < self.base.len() {
            self.base[pos]
        } else {
            0
        }
    }

    /// The contents of the file.
    pub open spec fn contents(self) -> Seq<u8> {
        Seq::new(self.size, |pos: int| self.byte(pos))
    }

    /// One chunk, padded with zeros.
    pub open spec fn chunk(self, index: nat) -> Seq<u8> {
        Seq::new(self.chunk_size, |i: int| self.byte(index * self.chunk_size + i))
    }
}

/// Where the bytes of a chunk come from.
#[derive(Debug, Clone, Copy, PartialEq, Eq, Structural)]
pub enum ChunkSource {
    /// The delta, from this offset.
    Delta { start: u64 },
    /// This many bytes of the base file, from this offset.
    Base { start: u64, len: u64 },
    /// Nowhere: it is all zeros.
    Zeros,
}

/// Where the bytes of a chunk come from.
pub fn chunk_source(index: u64, overridden: bool, chunk_size: usize, base_size: u64) -> (result:
    Result<ChunkSource, Error>)
    ensures
        if index * chunk_size > u64::MAX {
            result matches Err(error) && is_internal(error, "chunk offset overflow"@)
        } else {
            result matches Ok(source) && source == if overridden {
                ChunkSource::Delta { start: (index * chunk_size) as u64 }
            } else if index * chunk_size < base_size {
                ChunkSource::Base {
                    start: (index * chunk_size) as u64,
                    len: if base_size - index * chunk_size < chunk_size {
                        (base_size - index * chunk_size) as u64
                    } else {
                        chunk_size as u64
                    },
                }
            } else {
                ChunkSource::Zeros
            }
        },
{
    let size: u64 = chunk_size as u64;
    let start: u64 = match index.checked_mul(size) {
        Some(start) => start,
        None => {
            return Err(Error::Internal("chunk offset overflow".to_owned()));
        },
    };
    if overridden {
        return Ok(ChunkSource::Delta { start });
    }
    if start < base_size {
        let left: u64 = base_size - start;
        let len: u64 = if left < size {
            left
        } else {
            size
        };
        Ok(ChunkSource::Base { start, len })
    } else {
        Ok(ChunkSource::Zeros)
    }
}

/// The part of the base file that a chunk of the delta starts from when it is first
/// written, or nothing where the base does not show.
pub fn seed_source(index: i64, chunk_size: usize, base_size: u64) -> (result: Result<
    Option<(u64, u64)>,
    Error,
>)
    ensures
        if index < 0 {
            result matches Err(error) && is_internal(error, "negative chunk index"@)
        } else if index * chunk_size > u64::MAX {
            result matches Err(error) && is_internal(error, "chunk offset overflow"@)
        } else {
            result matches Ok(seed) && seed == if index * chunk_size >= base_size {
                None
            } else {
                Some(
                    (
                        (index * chunk_size) as u64,
                        if base_size - index * chunk_size < chunk_size {
                            (base_size - index * chunk_size) as u64
                        } else {
                            chunk_size as u64
                        },
                    ),
                )
            }
        },
{
    if index < 0 {
        return Err(Error::Internal("negative chunk index".to_owned()));
    }
    match chunk_source(index as u64, false, chunk_size, base_size) {
        Err(error) => Err(error),
        Ok(source) => match source {
            ChunkSource::Base { start, len } => Ok(Some((start, len))),
            ChunkSource::Delta { start } => Ok(None),
            ChunkSource::Zeros => Ok(None),
        },
    }
}

/// Bytes cut or padded with zeros to the length of a chunk.
pub fn pad_chunk(bytes: Vec<u8>, chunk_size: usize) -> (chunk: Vec<u8>)
    ensures
        chunk@.len() == chunk_size,
        forall|i: int|
            0 <= i < chunk_size ==> #[trigger] chunk@[i] == if i < bytes@.len() {
                bytes@[i]
            } else {
                0
            },
{
    let mut chunk = bytes;
    chunk.resize(chunk_size, 0);
    chunk
}

/// A chunk made from its source is the chunk of the file.
pub proof fn a_merged_chunk_is_the_chunk_of_the_file(
    file: PartialModel,
    index: nat,
    source: ChunkSource,
    bytes: Seq<u8>,
    chunk: Seq<u8>,
)
    requires
        file.chunk_size > 0,
        file.base_size <= file.base.len(),
        index * file.chunk_size <= u64::MAX,
        source == if file.overrides.contains_key(index) {
            ChunkSource::Delta { start: (index * file.chunk_size) as u64 }
        } else if index * file.chunk_size < file.base_size {
            ChunkSource::Base {
                start: (index * file.chunk_size) as u64,
                len: if file.base_size - index * file.chunk_size < file.chunk_size {
                    (file.base_size - index * file.chunk_size) as u64
                } else {
                    file.chunk_size as u64
                },
            }
        } else {
            ChunkSource::Zeros
        },
        file.chunk_size <= u64::MAX,
        match source {
            ChunkSource::Delta { start } => bytes == file.overrides[index],
            ChunkSource::Base { start, len } => bytes == file.base.subrange(
                start as int,
                start + len,
            ),
            ChunkSource::Zeros => bytes.len() == 0,
        },
        chunk.len() == file.chunk_size,
        forall|i: int|
            0 <= i < file.chunk_size ==> #[trigger] chunk[i] == if i < bytes.len() {
                bytes[i]
            } else {
                0
            },
    ensures
        chunk == file.chunk(index),
{
    assert forall|i: int| 0 <= i < file.chunk_size implies #[trigger] chunk[i] == file.chunk(
        index,
    )[i] by {
        lemma_chunk_position(index, file.chunk_size, i);
    }
    assert(chunk =~= file.chunk(index));
}

/// A position inside a chunk lies in that chunk.
proof fn lemma_chunk_position(index: nat, chunk_size: nat, i: int)
    requires
        chunk_size > 0,
        0 <= i < chunk_size,
    ensures
        (index * chunk_size + i) / chunk_size as int == index,
        (index * chunk_size + i) % chunk_size as int == i,
{
    vstd::arithmetic::div_mod::lemma_fundamental_div_mod_converse(
        index * chunk_size + i,
        chunk_size as int,
        index as int,
        i,
    );
}

/// A read of a file that lies over a base file, one chunk at a time.
pub struct PartialRead {
    pub offset: u64,
    pub len: usize,
    pub chunk_size: usize,
    pub bytes: Vec<u8>,
}

impl PartialRead {
    pub open spec fn wf(self) -> bool {
        &&& self.chunk_size > 0
        &&& self.bytes@.len() <= self.len
        &&& self.offset + self.len <= u64::MAX
    }

    /// The bytes read so far are those of `contents`.
    pub open spec fn follows(self, contents: Seq<u8>) -> bool {
        &&& self.offset + self.len <= contents.len()
        &&& self.bytes@ == contents.subrange(
            self.offset as int,
            self.offset + self.bytes@.len(),
        )
    }

    /// A read of `size` bytes at `offset` in a file of `file_size` bytes, or nothing when
    /// it lies beyond the end.
    pub fn new(offset: u64, size: u64, file_size: u64, chunk_size: usize) -> (read: Option<
        PartialRead,
    >)
        requires
            chunk_size > 0,
            size <= usize::MAX,
        ensures
            match read {
                None => offset >= file_size || size == 0,
                Some(r) => {
                    &&& offset < file_size
                    &&& size > 0
                    &&& r.wf()
                    &&& r.offset == offset
                    &&& r.chunk_size == chunk_size
                    &&& r.len == if size < file_size - offset {
                        size as int
                    } else {
                        file_size - offset
                    }
                    &&& r.bytes@.len() == 0
                    &&& forall|contents: Seq<u8>|
                        contents.len() == file_size ==> #[trigger] r.follows(contents)
                },
            },
    {
        if offset >= file_size || size == 0 {
            return None;
        }
        let left: u64 = file_size - offset;
        let len: u64 = if size < left {
            size
        } else {
            left
        };
        let read = PartialRead { offset, len: len as usize, chunk_size, bytes: Vec::new() };
        proof {
            assert forall|contents: Seq<u8>| contents.len()
                == file_size implies #[trigger] read.follows(contents) by {
                assert(read.bytes@ =~= contents.subrange(offset as int, offset as int));
            }
        }
        Some(read)
    }

    pub fn is_done(&self) -> (done: bool)
        requires
            self.wf(),
        ensures
            done == (self.bytes@.len() == self.len),
    {
        self.bytes.len() >= self.len
    }

    /// The chunk that the next bytes are in.
    pub fn wanted(&self) -> (index: u64)
        requires
            self.wf(),
            self.bytes@.len() < self.len,
        ensures
            index == (self.offset + self.bytes@.len()) / self.chunk_size as int,
    {
        let at: u64 = self.offset + self.bytes.len() as u64;
        at / self.chunk_size as u64
    }

    /// Takes the wanted chunk.
    pub fn feed(&mut self, chunk: &Vec<u8>)
        requires
            old(self).wf(),
            old(self).bytes@.len() < old(self).len,
            chunk@.len() == old(self).chunk_size,
        ensures
            final(self).wf(),
            final(self).offset == old(self).offset,
            final(self).len == old(self).len,
            final(self).chunk_size == old(self).chunk_size,
            final(self).bytes@.len() > old(self).bytes@.len(),
            forall|file: PartialModel|
                #![trigger final(self).follows(file.contents())]
                old(self).follows(file.contents()) && file.chunk_size == old(self).chunk_size
                    && chunk@ == file.chunk(
                    ((old(self).offset + old(self).bytes@.len()) / old(self).chunk_size as int)
                        as nat,
                ) ==> final(self).follows(file.contents()),
    {
        let done: usize = self.bytes.len();
        let chunk_len: usize = chunk.len();
        let at: u64 = self.offset + done as u64;
        let within: usize = (at % self.chunk_size as u64) as usize;
        let left: usize = self.len - done;
        let take: usize = if self.chunk_size - within < left {
            self.chunk_size - within
        } else {
            left
        };
        let ghost index = at as int / self.chunk_size as int;
        let ghost before = self.bytes@;
        proof {
            vstd::arithmetic::div_mod::lemma_fundamental_div_mod(
                at as int,
                self.chunk_size as int,
            );
        }
        let mut i: usize = 0;
        while i < take
            invariant
                i <= take,
                within + take <= chunk_len == chunk@.len(),
                self.bytes@.len() == done + i,
                self.bytes@.subrange(0, done as int) == before,
                forall|k: int| 0 <= k < i ==> #[trigger] self.bytes@[done + k] == chunk@[within + k],
                self.offset == old(self).offset,
                self.len == old(self).len,
                self.chunk_size == old(self).chunk_size,
                before.len() == done,
            decreases take - i,
        {
            let ghost was = self.bytes@;
            self.bytes.push(chunk[within + i]);
            i += 1;
            assert(self.bytes@.subrange(0, done as int) =~= was.subrange(0, done as int));
        }
        proof {
            assert forall|file: PartialModel|
                #![trigger self.follows(file.contents())]
                old(self).follows(file.contents()) && file.chunk_size == old(self).chunk_size
                    && chunk@ == file.chunk(
                    ((old(self).offset + old(self).bytes@.len()) / old(self).chunk_size as int)
                        as nat,
                ) implies self.follows(file.contents()) by {
                let contents = file.contents();
                assert forall|k: int| 0 <= k < done + take implies #[trigger] self.bytes@[k]
                    == contents[self.offset + k] by {
                    if k < done {
                        assert(self.bytes@.subrange(0, done as int)[k] == before[k]);
                        assert(before[k] == contents.subrange(
                            self.offset as int,
                            self.offset + done,
                        )[k]);
                    } else {
                        let j = k - done;
                        assert(self.bytes@[done + j] == chunk@[within + j]);
                        assert(chunk@[within + j] == file.byte(
                            index * file.chunk_size + (within + j),
                        ));
                        assert(index * file.chunk_size + within == at) by (nonlinear_arith)
                            requires
                                at as int == self.chunk_size as int * index + within as int,
                                file.chunk_size == self.chunk_size,
                        ;
                    }
                }
                assert(self.bytes@ =~= contents.subrange(
                    self.offset as int,
                    self.offset + self.bytes@.len(),
                ));
            }
        }
    }
}

/// A read that is done holds exactly the bytes asked for.
pub proof fn a_finished_partial_read_is_exact(read: PartialRead, file: PartialModel)
    requires
        read.wf(),
        read.follows(file.contents()),
        read.bytes@.len() == read.len,
    ensures
        read.bytes@ == file.contents().subrange(read.offset as int, read.offset + read.len),
{
}

impl PartialModel {
    /// The file after it was cut to `size`: chunks beyond the end go and the base shows
    /// no further than the cut. The chunk at the cut holds zeros behind it.
    pub open spec fn truncated(self, size: nat) -> PartialModel {
        PartialModel {
            size,
            base_size: if size < self.base_size {
                size
            } else {
                self.base_size
            },
            overrides: Map::new(
                |index: nat| self.overrides.contains_key(index) && index * self.chunk_size < size,
                |index: nat|
                    if size - index * self.chunk_size < self.overrides[index].len() {
                        self.overrides[index].take(size - index * self.chunk_size)
                    } else {
                        self.overrides[index]
                    },
            ),
            ..self
        }
    }
}

/// Cutting a file and making it longer again never shows the old tail: what lies behind
/// the cut reads as zero, what lies before it is as it was, and the base file is untouched.
/// This holds of every file, also of one that was cut before.
pub proof fn truncation_does_not_show_the_base_tail_again(
    file: PartialModel,
    size: nat,
    longer: nat,
    pos: int,
)
    requires
        file.chunk_size > 0,
        size <= file.size,
        size <= longer,
        0 <= pos < longer,
    ensures
        ({
            let grown = file.truncated(size).truncated(longer);
            &&& grown.contents().len() == longer
            &&& grown.contents()[pos] == if pos < size {
                file.contents()[pos]
            } else {
                0
            }
            &&& grown.base == file.base
        }),
{
    let index = (pos / file.chunk_size as int) as nat;
    vstd::arithmetic::div_mod::lemma_fundamental_div_mod(pos, file.chunk_size as int);
    assert(0 <= pos % file.chunk_size as int) by {
        vstd::arithmetic::div_mod::lemma_mod_bound(pos, file.chunk_size as int);
    }
    vstd::arithmetic::div_mod::lemma_mod_bound(pos, file.chunk_size as int);
    vstd::arithmetic::div_mod::lemma_div_pos_is_pos(pos, file.chunk_size as int);
    let within = pos % file.chunk_size as int;
    assert(pos == index * file.chunk_size + within) by (nonlinear_arith)
        requires
            pos == file.chunk_size as int * (pos / file.chunk_size as int) + within,
            index as int == pos / file.chunk_size as int,
    ;
    assert((index + 1) * file.chunk_size == index * file.chunk_size + file.chunk_size)
        by (nonlinear_arith);
}

/// The last chunk of a file of a size, as the database numbers it, if it has any.
pub open spec fn last_chunk(size: u64, chunk_size: usize) -> Option<i64> {
    if size == 0 {
        None
    } else {
        Some(((size - 1) / chunk_size as int) as u64 as i64)
    }
}

/// Whether a chunk override is left by the statement of [`prune_statement`], which drops all of
/// an empty file and otherwise those with a larger number than the last chunk has.
pub open spec fn prune_keeps(index: i64, size: u64, chunk_size: usize) -> bool {
    last_chunk(size, chunk_size) matches Some(last) && index <= last
}

/// How much of the base file shows after a cut.
pub open spec fn base_shown_after(size: u64, base_size: u64) -> u64 {
    if size < base_size {
        size
    } else {
        base_size
    }
}

/// What a cut does to the database is what it does to the file: a chunk override is left exactly
/// where it begins before the new end, and as much of the base shows. Sizes that the database
/// cannot hold are left out.
pub proof fn the_database_is_cut_as_the_file(
    file: PartialModel,
    index: i64,
    size: u64,
    chunk_size: usize,
    base_size: u64,
)
    requires
        chunk_size > 0,
        size <= i64::MAX,
        index >= 0,
        file.chunk_size == chunk_size,
        file.base_size == base_size,
    ensures
        prune_keeps(index, size, chunk_size) <==> index * chunk_size < size,
        file.truncated(size as nat).overrides.contains_key(index as nat) <==>
            file.overrides.contains_key(index as nat) && prune_keeps(index, size, chunk_size),
        file.truncated(size as nat).base_size == base_shown_after(size, base_size),
{
    if size > 0 {
        let c = chunk_size as int;
        let last = (size - 1) / c;
        vstd::arithmetic::div_mod::lemma_fundamental_div_mod(size - 1, c);
        vstd::arithmetic::div_mod::lemma_mod_bound(size - 1, c);
        vstd::arithmetic::div_mod::lemma_div_is_ordered_by_denominator(size - 1, 1, c);
        vstd::arithmetic::div_mod::lemma_div_pos_is_pos(size - 1, c);
        assert(0 <= last <= size - 1);
        let n = index as int;
        assert(n <= last ==> n * c < size) by (nonlinear_arith)
            requires
                0 < c,
                size - 1 == c * last + (size - 1) % c,
                0 <= (size - 1) % c,
        ;
        assert(n > last ==> n * c >= size) by (nonlinear_arith)
            requires
                0 < c,
                size - 1 == c * last + (size - 1) % c,
                (size - 1) % c < c,
        ;
    } else {
        assert(index * chunk_size >= 0) by (nonlinear_arith)
            requires
                index >= 0,
        ;
    }
}

/// The statement that drops chunk overrides behind a new end of the file.
pub fn prune_statement(delta_ino: i64, size: u64, chunk_size: usize) -> (statement: SqlStatement)
    requires
        chunk_size > 0,
    ensures
        match last_chunk(size, chunk_size) {
            None => statement.runs(
                "DELETE FROM fs_chunk_override WHERE delta_ino = ?"@,
                seq![SqlModel::Integer(delta_ino)],
            ),
            Some(last) => statement.runs(
                "DELETE FROM fs_chunk_override WHERE delta_ino = ? AND chunk_index > ?"@,
                seq![SqlModel::Integer(delta_ino), SqlModel::Integer(last)],
            ),
        },
{
    let mut values: Vec<SqlValue> = Vec::new();
    values.push(SqlValue::Integer(delta_ino));
    if size == 0 {
        assert(models(values@) =~= seq![SqlModel::Integer(delta_ino)]);
        return SqlStatement {
            sql: "DELETE FROM fs_chunk_override WHERE delta_ino = ?".to_owned(),
            values,
        };
    }
    let last_chunk: u64 = (size - 1) / chunk_size as u64;
    values.push(SqlValue::Integer(#[verifier::truncate] (last_chunk as i64)));
    assert(models(values@) =~= seq![
        SqlModel::Integer(delta_ino),
        SqlModel::Integer(((size - 1) / chunk_size as int) as u64 as i64),
    ]);
    SqlStatement {
        sql: "DELETE FROM fs_chunk_override WHERE delta_ino = ? AND chunk_index > ?".to_owned(),
        values,
    }
}

/// How much of the base file shows after a cut, if that is less than before.
pub fn base_size_after_truncate(size: u64, base_size: u64) -> (new_size: Option<u64>)
    ensures
        new_size == if base_shown_after(size, base_size) < base_size {
            Some(base_shown_after(size, base_size))
        } else {
            None
        },
{
    if size < base_size {
        Some(size)
    } else {
        None
    }
}

/// A size from the first row of a query, which has to be there. A cell that holds no
/// integer counts as zero.
pub fn required_size(row: Option<SqlValue>) -> (result: Result<u64, FsError>)
    ensures
        match row {
            None => result == Err::<u64, FsError>(FsError::NotFound),
            Some(value) => result == Ok::<u64, FsError>(integer_or(value@, 0) as u64),
        },
{
    match row {
        None => Err(FsError::NotFound),
        Some(value) => Ok(#[verifier::truncate] (integer_else(&value, 0) as u64)),
    }
}

} // verus!
