//! What an acknowledged write promises.
use vstd::prelude::*;

verus! {

/// What the acknowledgement of a write promises.
#[derive(Clone, Copy, Debug, PartialEq, Eq, Structural)]
pub enum AckDurability {
    /// The bytes may still be held in memory.
    Volatile,
    /// The bytes are committed.
    Committed,
}

/// The acknowledgement of a write.
#[derive(Clone, Copy, Debug, PartialEq, Eq, Structural)]
pub struct WriteReceipt {
    pub count: usize,
    pub durability: AckDurability,
}

/// A step of a write.
#[derive(Clone, Copy, Debug, PartialEq, Eq, Structural)]
pub enum WriteStep {
    /// Hand the bytes to the file.
    Write,
    /// Make the file durable.
    Sync,
    /// Acknowledge.
    Acknowledge(WriteReceipt),
}

/// The steps of a write. A committed one is made durable before it is acknowledged.
pub open spec fn write_plan(count: usize, durability: AckDurability) -> Seq<WriteStep> {
    let receipt = WriteReceipt { count, durability };
    match durability {
        AckDurability::Volatile => seq![WriteStep::Write, WriteStep::Acknowledge(receipt)],
        AckDurability::Committed => seq![
            WriteStep::Write,
            WriteStep::Sync,
            WriteStep::Acknowledge(receipt),
        ],
    }
}

/// The steps of a write of `count` bytes, in order. A step that fails ends the write.
pub fn write_steps(count: usize, durability: AckDurability) -> (steps: Vec<WriteStep>)
    ensures
        steps@ == write_plan(count, durability),
{
    let mut steps: Vec<WriteStep> = Vec::new();
    steps.push(WriteStep::Write);
    match durability {
        AckDurability::Committed => {
            steps.push(WriteStep::Sync);
        },
        AckDurability::Volatile => {},
    }
    steps.push(WriteStep::Acknowledge(WriteReceipt { count, durability }));
    assert(steps@ =~= write_plan(count, durability));
    steps
}

/// What a barrier commits.
#[derive(Clone, Copy, Debug, PartialEq, Eq, Structural)]
pub enum Barrier {
    /// The pending writes of one inode.
    Inode(i64),
    /// All pending writes.
    All,
}

/// What a barrier commits: the writes of one inode if one is given, else all.
pub fn commit_barrier(ino: Option<i64>) -> (barrier: Barrier)
    ensures
        barrier == match ino {
            Some(ino) => Barrier::Inode(ino),
            None => Barrier::All,
        },
{
    match ino {
        Some(ino) => Barrier::Inode(ino),
        None => Barrier::All,
    }
}

/// A write that is acknowledged as committed was made durable before, and the receipt says
/// how many bytes were written.
pub proof fn committed_writes_are_durable_first(count: usize, durability: AckDurability, at: int)
    requires
        0 <= at < write_plan(count, durability).len(),
        write_plan(count, durability)[at] is Acknowledge,
    ensures
        at == write_plan(count, durability).len() - 1,
        write_plan(count, durability)[at]->Acknowledge_0 == (WriteReceipt { count, durability }),
        write_plan(count, durability)[0] is Write,
        durability is Committed ==> write_plan(count, durability)[at - 1] is Sync,
{
}

} // verus!
