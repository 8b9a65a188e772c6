//! Typed runtime configuration.
use crate::overlay::PartialOriginPolicy;
use crate::schema::columns::{lowered, same_but_for_case};
use vstd::prelude::*;

verus! {

/// Limits of the write batcher.
#[derive(Debug, Clone, Copy)]
pub struct BatcherConfig {
    pub enabled: bool,
    /// How long the scheduler lets writes gather, in milliseconds.
    pub window_millis: u64,
    /// Pending bytes of one inode that trigger a drain of that inode.
    pub inode_bytes: usize,
    /// Pending bytes of all inodes that trigger a full drain.
    pub global_bytes: usize,
    /// Most inodes committed in one transaction.
    pub txn_max_inodes: usize,
    /// Most pending bytes committed in one transaction.
    pub txn_max_bytes: usize,
}

/// How file contents are laid out in the database.
#[derive(Debug, Clone, Copy, PartialEq, Eq, Structural)]
pub struct Geometry {
    pub chunk_size: usize,
    pub inline_threshold: usize,
}

/// How a filesystem behaves, decided when it is opened.
#[derive(Debug, Clone, Copy)]
pub struct CoreConfig {
    /// The layout of a new database. One that is there keeps its own.
    pub geometry: Geometry,
    pub batcher: BatcherConfig,
    /// Whether readers see writes that were not committed yet without a commit.
    pub overlay_reads: bool,
    /// Whether a change of attributes commits pending writes first.
    pub drain_on_setattr: bool,
    /// Whether the kernel may keep the pages of database files.
    pub keepcache_delta: bool,
    pub partial_origin: PartialOriginPolicy,
}

/// Texts that switch something on, in any case.
pub open spec fn says_yes(value: Seq<char>) -> bool {
    ||| lowered(value) == lowered("1"@)
    ||| lowered(value) == lowered("true"@)
    ||| lowered(value) == lowered("yes"@)
    ||| lowered(value) == lowered("on"@)
}

/// Texts that switch something off, in any case.
pub open spec fn says_no(value: Seq<char>) -> bool {
    ||| lowered(value) == lowered("0"@)
    ||| lowered(value) == lowered("false"@)
    ||| lowered(value) == lowered("no"@)
    ||| lowered(value) == lowered("off"@)
}

/// What a text switches, if anything.
pub open spec fn switch_of(value: Seq<char>) -> Option<bool> {
    if says_yes(value) {
        Some(true)
    } else if says_no(value) {
        Some(false)
    } else {
        None
    }
}

/// How values of the environment are read.
pub struct EnvReader;

impl EnvReader {
    /// Reads a switch.
    pub fn parse_bool(value: &str) -> (switch: Option<bool>)
        ensures
            switch == switch_of(value@),
    {
        if same_but_for_case(value, "1") || same_but_for_case(value, "true") || same_but_for_case(
            value,
            "yes",
        ) || same_but_for_case(value, "on") {
            Some(true)
        } else if same_but_for_case(value, "0") || same_but_for_case(value, "false")
            || same_but_for_case(value, "no") || same_but_for_case(value, "off") {
            Some(false)
        } else {
            None
        }
    }

    /// Reads a switch that may not be set. What is not a switch leaves the default.
    pub fn bool_or(value: Option<&str>, default: bool) -> (switch: bool)
        ensures
            switch == match value {
                Some(text) => match switch_of(text@) {
                    Some(found) => found,
                    None => default,
                },
                None => default,
            },
    {
        match value {
            Some(text) => match EnvReader::parse_bool(text) {
                Some(found) => found,
                None => default,
            },
            None => default,
        }
    }
}

/// No text switches both on and off.
pub proof fn a_switch_has_one_meaning(value: Seq<char>)
    ensures
        !(says_yes(value) && says_no(value)),
{
    reveal_strlit("1");
    reveal_strlit("true");
    reveal_strlit("yes");
    reveal_strlit("on");
    reveal_strlit("0");
    reveal_strlit("false");
    reveal_strlit("no");
    reveal_strlit("off");
    let v = lowered(value);
    if says_yes(value) && says_no(value) {
        assert(v.len() == lowered("1"@).len() || v.len() == lowered("true"@).len() || v.len()
            == lowered("yes"@).len() || v.len() == lowered("on"@).len());
        assert(lowered("1"@)[0] == '1');
        assert(lowered("true"@)[0] == 't');
        assert(lowered("yes"@)[0] == 'y');
        assert(lowered("on"@)[0] == 'o');
        assert(lowered("0"@)[0] == '0');
        assert(lowered("false"@)[0] == 'f');
        assert(lowered("no"@)[0] == 'n');
        assert(lowered("off"@)[0] == 'o');
    }
}

} // verus!
