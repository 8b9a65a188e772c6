//! What operations do to the caches of entries and attributes.
use crate::batcher_state::BatcherModel;
use crate::stats::Stats;
use crate::tables::Tables;
use vstd::prelude::*;

verus! {

/// Most entries that the cache of directory entries holds.
pub const DENTRY_CACHE_MAX_SIZE: usize = 10000;

/// Most entries that the cache of missing names holds.
pub const NEGATIVE_DENTRY_CACHE_MAX_SIZE: usize = 10000;

/// Most inodes that the cache of attributes holds.
pub const ATTR_CACHE_MAX_SIZE: usize = 10000;

/// A change of the caches.
#[derive(Debug)]
pub enum CacheChange {
    /// The name leads to the inode.
    Entry { parent: i64, name: String, ino: i64 },
    /// The name is not there.
    Missing { parent: i64, name: String },
    /// Nothing is known of the name any more.
    ForgetEntry { parent: i64, name: String },
    /// Nothing is known of the attributes any more.
    ForgetAttr { ino: i64 },
    /// The attributes of an inode.
    Attr(Stats),
}

/// The contents of the caches.
#[verifier::ext_equal]
pub struct CacheModel {
    pub dentries: Map<(i64, Seq<char>), i64>,
    pub missing: Set<(i64, Seq<char>)>,
    pub attrs: Map<i64, Stats>,
}

impl CacheModel {
    pub open spec fn with_entry(self, parent: i64, name: Seq<char>, ino: i64) -> CacheModel {
        CacheModel {
            dentries: self.dentries.insert((parent, name), ino),
            missing: self.missing.remove((parent, name)),
            ..self
        }
    }

    pub open spec fn with_missing(self, parent: i64, name: Seq<char>) -> CacheModel {
        CacheModel {
            dentries: self.dentries.remove((parent, name)),
            missing: self.missing.insert((parent, name)),
            ..self
        }
    }

    pub open spec fn without_entry(self, parent: i64, name: Seq<char>) -> CacheModel {
        CacheModel {
            dentries: self.dentries.remove((parent, name)),
            missing: self.missing.remove((parent, name)),
            ..self
        }
    }

    pub open spec fn without_attr(self, ino: i64) -> CacheModel {
        CacheModel { attrs: self.attrs.remove(ino), ..self }
    }

    pub open spec fn with_attr(self, stats: Stats) -> CacheModel {
        CacheModel { attrs: self.attrs.insert(stats.ino, stats), ..self }
    }

    /// The caches after one change.
    pub open spec fn changed(self, change: CacheChange) -> CacheModel {
        match change {
            CacheChange::Entry { parent, name, ino } => self.with_entry(parent, name@, ino),
            CacheChange::Missing { parent, name } => self.with_missing(parent, name@),
            CacheChange::ForgetEntry { parent, name } => self.without_entry(parent, name@),
            CacheChange::ForgetAttr { ino } => self.without_attr(ino),
            CacheChange::Attr(stats) => self.with_attr(stats),
        }
    }

    /// The caches after changes in order.
    pub open spec fn changed_by(self, changes: Seq<CacheChange>) -> CacheModel
        decreases changes.len(),
    {
        if changes.len() == 0 {
            self
        } else {
            self.changed_by(changes.drop_last()).changed(changes.last())
        }
    }

    /// Everything cached is what the tables and the pending state give.
    pub open spec fn coherent(self, tables: Tables, pending: BatcherModel) -> bool {
        &&& forall|key: (i64, Seq<char>)| #[trigger]
            self.dentries.contains_key(key) ==> tables.dentries.contains_key(key)
                && tables.dentries[key] == self.dentries[key]
        &&& forall|key: (i64, Seq<char>)| #[trigger]
            self.missing.contains(key) ==> !tables.dentries.contains_key(key)
        &&& forall|ino: i64| #[trigger]
            self.attrs.contains_key(ino) ==> tables.inodes.contains_key(ino) && self.attrs[ino]
                == pending.stats_over(ino, tables.inodes[ino].stats(ino))
    }
}

/// One more change applies after those before it.
pub broadcast proof fn cache_changed_by_push(
    caches: CacheModel,
    changes: Seq<CacheChange>,
    change: CacheChange,
)
    ensures
        #[trigger] caches.changed_by(changes.push(change)) == caches.changed_by(changes).changed(
            change,
        ),
{
    assert(changes.push(change).drop_last() =~= changes);
}

/// Nothing changes without a change.
pub broadcast proof fn cache_changed_by_none(caches: CacheModel)
    ensures
        #[trigger] caches.changed_by(Seq::<CacheChange>::empty()) == caches,
{
}

} // verus!
