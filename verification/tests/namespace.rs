use agentfs_core::caches::CacheChange;
use agentfs_core::error::FsError;
use agentfs_core::namespace::{
    check_name, create_file_finish, create_file_row, entry_inserted, mkdir_finish, mkdir_row,
    mknod_finish, mknod_row, symlink_finish, symlink_row, Created, NewInode,
};
use agentfs_core::pending::PendingTimeChange;
use agentfs_core::removal::{
    drop_removed_dir, link_plan, reap_after_unlink, rmdir_plan, ParentRows,
};
use agentfs_core::rename::{Rename, RenameAsk, RenameReply};
use agentfs_core::sql::SqlValue;
use agentfs_core::stats::{Stats, S_IFDIR, S_IFLNK, S_IFREG};
use agentfs_core::tables::{InodeUpdate, LinkChange, RowChange};
use agentfs_core::unlink::{Unlink, UnlinkAsk, UnlinkReply};
use std::collections::BTreeMap;

/// The tables of a filesystem in memory.
struct MemDb {
    inodes: BTreeMap<i64, Stats>,
    entries: BTreeMap<(i64, String), i64>,
    symlinks: BTreeMap<i64, String>,
    next: i64,
}

const NOW: (i64, i64) = (1000, 5);
const LATER: (i64, i64) = (2000, 6);

impl MemDb {
    fn new() -> MemDb {
        let root = NewInode {
            mode: S_IFDIR | 0o755,
            nlink: 2,
            uid: 0,
            gid: 0,
            size: 0,
            now: (1, 0),
            rdev: 0,
            inline: false,
        };
        let mut inodes = BTreeMap::new();
        inodes.insert(1, root.stats(1, 2));
        MemDb { inodes, entries: BTreeMap::new(), symlinks: BTreeMap::new(), next: 2 }
    }

    fn child(&self, parent: i64, name: &str) -> Option<i64> {
        self.entries.get(&(parent, name.to_string())).copied()
    }

    fn mode(&self, ino: i64) -> Option<u32> {
        self.inodes.get(&ino).map(|stats| stats.mode)
    }

    fn count(&self, dir: i64) -> i64 {
        self.entries.keys().filter(|key| key.0 == dir).count() as i64
    }

    fn parents(&self, ino: i64) -> ParentRows {
        let found: Vec<i64> =
            self.entries.iter().filter(|(_, to)| **to == ino).map(|(key, _)| key.0).collect();
        match found.len() {
            0 => ParentRows::Missing,
            1 => ParentRows::One(found[0]),
            _ => ParentRows::Many,
        }
    }

    fn insert(&mut self, row: &NewInode) -> i64 {
        let ino = self.next;
        self.next += 1;
        self.inodes.insert(ino, row.stats(ino, row.nlink));
        ino
    }

    fn update(&mut self, update: &InodeUpdate) {
        if let Some(stats) = self.inodes.get_mut(&update.ino) {
            match update.links {
                LinkChange::Keep => {}
                LinkChange::To(n) => stats.nlink = n,
                LinkChange::Up => stats.nlink += 1,
                LinkChange::Down => stats.nlink -= 1,
            }
            if let Some(mode) = update.mode {
                stats.mode = mode;
            }
            update.times.merge_into(stats);
        }
    }

    fn apply(&mut self, changes: &[RowChange]) {
        for change in changes {
            match change {
                RowChange::InsertDentry { parent, name, ino } => {
                    self.entries.insert((*parent, name.clone()), *ino);
                }
                RowChange::RemoveDentry { parent, name } => {
                    self.entries.remove(&(*parent, name.clone()));
                }
                RowChange::MoveDentry { parent, name, new_parent, new_name } => {
                    if let Some(ino) = self.entries.remove(&(*parent, name.clone())) {
                        self.entries.insert((*new_parent, new_name.clone()), ino);
                    }
                }
                RowChange::InsertSymlink { ino, target } => {
                    self.symlinks.insert(*ino, target.clone());
                }
                RowChange::Update(update) => self.update(update),
                RowChange::RemoveInode { ino } => {
                    self.inodes.remove(ino);
                }
                RowChange::Reap { ino } => {
                    self.inodes.remove(ino);
                    self.symlinks.remove(ino);
                }
            }
        }
    }

    fn mkdir(&mut self, parent: i64, name: &str) -> Stats {
        let row = mkdir_row(name, self.child(parent, name), 0o755, 7, 8, NOW).unwrap();
        let ino = self.insert(&row);
        let created = mkdir_finish(&row, parent, name, ino);
        self.apply(&created.plan.changes);
        created.stats
    }

    fn create(&mut self, parent: i64, name: &str) -> Created {
        let row = create_file_row(name, 0o644, 7, 8, NOW).unwrap();
        let ino = self.insert(&row);
        let created = create_file_finish(&row, parent, name, ino, false);
        self.apply(&created.plan.changes);
        created
    }

    fn rename(
        &mut self,
        parent: i64,
        name: &str,
        new_parent: i64,
        new_name: &str,
        open: &[i64],
    ) -> Result<(Option<i64>, Option<i64>, Vec<RenameAsk>), FsError> {
        let mut rename = Rename::start(parent, name, new_parent, new_name)?;
        let mut asked = Vec::new();
        loop {
            asked.push(rename.asked);
            let reply = match rename.asked {
                RenameAsk::FindSource => RenameReply::Child(self.child(parent, name)),
                RenameAsk::StatSource(ino) | RenameAsk::StatTarget(ino) => {
                    RenameReply::Mode(self.mode(ino))
                }
                RenameAsk::Begin => RenameReply::Done,
                RenameAsk::AskParents(ino) => RenameReply::Parents(self.parents(ino)),
                RenameAsk::FindTarget => RenameReply::Child(self.child(new_parent, new_name)),
                RenameAsk::CountTarget(ino) => RenameReply::Count(self.count(ino)),
                RenameAsk::AskLinks(ino) => RenameReply::Links {
                    count: self.inodes[&ino].nlink,
                    still_open: open.contains(&ino),
                },
                RenameAsk::ClearTarget(_) | RenameAsk::ReapTarget(_) | RenameAsk::MoveEntry => {
                    let changes = rename.changes(LATER);
                    self.apply(&changes);
                    RenameReply::Done
                }
                RenameAsk::Finish => return Ok((rename.target, rename.discarded(), asked)),
            };
            rename.step(reply)?;
        }
    }
}

#[test]
fn names_are_bounded_by_bytes() {
    assert!(check_name(&"n".repeat(255)).is_ok());
    assert!(matches!(check_name(&"n".repeat(256)), Err(FsError::NameTooLong)));
    assert!(matches!(check_name(&"\u{e9}".repeat(128)), Err(FsError::NameTooLong)));
}

#[test]
fn a_new_directory_links_its_parent() {
    let mut db = MemDb::new();
    let dir = db.mkdir(1, "dir");
    assert_eq!(dir.mode, S_IFDIR | 0o755);
    assert_eq!(dir.nlink, 2);
    assert_eq!((dir.uid, dir.gid), (7, 8));
    assert_eq!(db.inodes[&1].nlink, 3);
    assert_eq!((db.inodes[&1].mtime, db.inodes[&1].ctime), (1000, 1000));
    assert_eq!(db.child(1, "dir"), Some(dir.ino));
    assert!(matches!(
        mkdir_row("dir", Some(dir.ino), 0o755, 0, 0, NOW),
        Err(FsError::AlreadyExists)
    ));
}

#[test]
fn a_new_file_can_leave_the_times_of_its_parent_pending() {
    let row = create_file_row("f", 0o100600, 1, 2, NOW).unwrap();
    assert_eq!(row.mode, S_IFREG | 0o600);
    let written = create_file_finish(&row, 1, "f", 9, false);
    assert_eq!(written.plan.changes.len(), 2);
    assert!(written.parent_times.is_none());
    let stashed = create_file_finish(&row, 1, "f", 9, true);
    assert_eq!(stashed.plan.changes.len(), 1);
    let times = stashed.parent_times.unwrap();
    assert_eq!(times.mtime, Some((1000, 5)));
    assert_eq!(times.ctime, Some((1000, 5)));
    assert_eq!(times.atime, None);
    assert!(entry_inserted(false).is_ok());
    assert!(matches!(entry_inserted(true), Err(FsError::AlreadyExists)));
}

#[test]
fn nodes_and_links_start_with_one_name() {
    let mut db = MemDb::new();
    let row = mknod_row("pipe", None, 0o010644, 3, 0, 0, NOW).unwrap();
    let ino = db.insert(&row);
    let node = mknod_finish(&row, 1, "pipe", ino);
    db.apply(&node.plan.changes);
    assert_eq!(node.stats.rdev, 3);
    assert_eq!(db.inodes[&ino].nlink, 1);

    let row = symlink_row("link", None, "target", 0, 0, NOW).unwrap();
    let ino = db.insert(&row);
    let link = symlink_finish(&row, 1, "link", "target", ino);
    db.apply(&link.plan.changes);
    assert_eq!(link.stats.mode, S_IFLNK | 0o777);
    assert_eq!(link.stats.size, 6);
    assert_eq!(db.symlinks[&ino], "target");
    assert_eq!(db.inodes[&ino].nlink, 1);
}

#[test]
fn unlinking_keeps_an_inode_while_it_has_names_or_is_open() {
    let mut db = MemDb::new();
    let ino = db.create(1, "a").stats.ino;
    let plan = link_plan(ino, 1, "b", db.mode(ino), db.child(1, "b"), NOW).unwrap();
    db.apply(&plan.changes);
    assert_eq!(db.inodes[&ino].nlink, 2);
    assert!(matches!(
        link_plan(ino, 1, "b", db.mode(ino), db.child(1, "b"), NOW),
        Err(FsError::AlreadyExists)
    ));
    assert!(matches!(
        link_plan(1, 1, "c", db.mode(1), None, NOW),
        Err(FsError::IsADirectory)
    ));

    let first = unlink(&mut db, 1, "a", false, None);
    assert!(first.refused.is_none() && !first.failed);
    assert_eq!(db.inodes[&ino].nlink, 1);
    assert_eq!(db.inodes[&ino].ctime, 2000);
    assert!(reap_after_unlink(ino, 1, false).is_none());

    assert!(reap_after_unlink(ino, 0, true).is_none());
    let reap = reap_after_unlink(ino, 0, false).unwrap();
    assert_eq!(reap.statements().len(), 3);
    let second = unlink(&mut db, 1, "b", false, None);
    assert_eq!(second.discarded, vec![(ino, true)]);
    assert!(!db.inodes.contains_key(&ino));
}

struct Unlinked {
    refused: Option<FsError>,
    failed: bool,
    /// Whose pending writes were discarded, and whether that was after the commit.
    discarded: Vec<(i64, bool)>,
    caches: usize,
}

/// Runs an unlink on the tables. `fails` is what does not succeed.
fn unlink(
    db: &mut MemDb,
    parent: i64,
    name: &str,
    still_open: bool,
    fails: Option<UnlinkAsk>,
) -> Unlinked {
    let mut unlink = Unlink::start(parent, name).unwrap();
    let saved = (db.inodes.clone(), db.entries.clone(), db.symlinks.clone());
    let mut committed = false;
    let mut discarded = Vec::new();
    while unlink.asked != UnlinkAsk::Finished {
        let reply = match unlink.asked {
            asked if fails == Some(asked) => UnlinkReply::Failed,
            UnlinkAsk::Find => UnlinkReply::Child(db.child(parent, name)),
            UnlinkAsk::Stat(ino) => UnlinkReply::Mode(db.mode(ino)),
            UnlinkAsk::AskLinks(ino) => {
                UnlinkReply::Links { count: db.inodes[&ino].nlink, still_open }
            }
            UnlinkAsk::Detach(_) | UnlinkAsk::Reap(_) => {
                db.apply(&unlink.changes(LATER));
                UnlinkReply::Done
            }
            UnlinkAsk::Commit => {
                committed = true;
                UnlinkReply::Done
            }
            UnlinkAsk::Rollback => {
                (db.inodes, db.entries, db.symlinks) = saved.clone();
                UnlinkReply::Done
            }
            UnlinkAsk::Discard(ino) => {
                assert_eq!(unlink.discarded(), Some(ino));
                discarded.push((ino, committed));
                UnlinkReply::Done
            }
            UnlinkAsk::Begin | UnlinkAsk::TellHooks(_) | UnlinkAsk::Finished => UnlinkReply::Done,
        };
        if unlink.asked != UnlinkAsk::Discard(unlink.ino) {
            assert_eq!(unlink.discarded(), None);
        }
        unlink.step(reply);
    }
    let caches = unlink.caches().len();
    Unlinked { refused: unlink.refused, failed: unlink.failed, discarded, caches }
}

#[test]
fn a_failing_hook_leaves_the_name_and_the_writes() {
    let mut db = MemDb::new();
    let ino = db.create(1, "a").stats.ino;
    let before = (db.inodes.len(), db.inodes[&ino].nlink, db.inodes[&1].mtime);
    for fails in [
        UnlinkAsk::Begin,
        UnlinkAsk::Find,
        UnlinkAsk::Stat(ino),
        UnlinkAsk::Detach(ino),
        UnlinkAsk::AskLinks(ino),
        UnlinkAsk::Reap(ino),
        UnlinkAsk::TellHooks(ino),
        UnlinkAsk::Commit,
    ] {
        let outcome = unlink(&mut db, 1, "a", false, Some(fails));
        assert!(outcome.failed && outcome.refused.is_none());
        assert!(outcome.discarded.is_empty());
        assert_eq!(db.child(1, "a"), Some(ino));
        assert_eq!((db.inodes.len(), db.inodes[&ino].nlink, db.inodes[&1].mtime), before);
    }
    let kept = unlink(&mut db, 1, "a", true, None);
    assert!(!kept.failed && kept.discarded.is_empty());
    assert_eq!(kept.caches, 4);
    assert_eq!(db.inodes[&ino].nlink, 0);
    assert_eq!(db.child(1, "a"), None);
}

#[test]
fn refused_removals_name_the_reason() {
    let mut db = MemDb::new();
    db.mkdir(1, "d");
    assert!(matches!(unlink(&mut db, 1, "x", false, None).refused, Some(FsError::NotFound)));
    assert!(matches!(unlink(&mut db, 1, "d", false, None).refused, Some(FsError::IsADirectory)));
    assert!(db.child(1, "d").is_some());
    let long = "n".repeat(256);
    assert!(matches!(Unlink::start(1, &long), Err(FsError::NameTooLong)));
    assert!(matches!(rmdir_plan(1, "x", None, None, 0, NOW), Err(FsError::NotFound)));
    assert!(matches!(
        rmdir_plan(1, "x", Some(1), Some(S_IFDIR), 0, NOW),
        Err(FsError::RootOperation)
    ));
    assert!(matches!(
        rmdir_plan(1, "x", Some(2), Some(S_IFREG), 0, NOW),
        Err(FsError::NotADirectory)
    ));
    assert!(matches!(
        rmdir_plan(1, "x", Some(2), Some(S_IFDIR), 1, NOW),
        Err(FsError::NotEmpty)
    ));
}

#[test]
fn removing_a_directory_unlinks_its_parent() {
    let mut db = MemDb::new();
    let dir = db.mkdir(1, "dir");
    let plan =
        rmdir_plan(1, "dir", db.child(1, "dir"), db.mode(dir.ino), db.count(dir.ino), LATER)
            .unwrap();
    db.apply(&plan.changes);
    assert_eq!(db.child(1, "dir"), None);
    assert_eq!(db.inodes[&1].nlink, 2);
    assert_eq!(db.inodes[&dir.ino].nlink, 1);
    assert!(drop_removed_dir(dir.ino, 1).is_none());
    assert!(drop_removed_dir(dir.ino, 0).is_some());
    assert!(matches!(
        plan.caches.last(),
        Some(CacheChange::Missing { parent: 1, name }) if name == "dir"
    ));
}

#[test]
fn a_rename_moves_one_name() {
    let mut db = MemDb::new();
    let ino = db.create(1, "old").stats.ino;
    let dir = db.mkdir(1, "dir").ino;
    let (replaced, discarded, asked) = db.rename(1, "old", dir, "new", &[]).unwrap();
    assert_eq!((replaced, discarded), (None, None));
    assert_eq!(db.child(1, "old"), None);
    assert_eq!(db.child(dir, "new"), Some(ino));
    assert_eq!(db.inodes[&ino].ctime, 2000);
    assert_eq!(db.inodes[&dir].mtime, 2000);
    assert_eq!(
        asked,
        vec![
            RenameAsk::FindSource,
            RenameAsk::StatSource(ino),
            RenameAsk::Begin,
            RenameAsk::FindTarget,
            RenameAsk::MoveEntry,
            RenameAsk::Finish,
        ]
    );
}

#[test]
fn a_rename_replaces_a_file() {
    let mut db = MemDb::new();
    let source = db.create(1, "a").stats.ino;
    let target = db.create(1, "b").stats.ino;
    let (replaced, discarded, _) = db.rename(1, "a", 1, "b", &[]).unwrap();
    assert_eq!(replaced, Some(target));
    assert_eq!(discarded, Some(target));
    assert_eq!(db.child(1, "b"), Some(source));
    assert!(!db.inodes.contains_key(&target));

    let kept = db.create(1, "c").stats.ino;
    let (replaced, discarded, _) = db.rename(1, "b", 1, "c", &[kept]).unwrap();
    assert_eq!(replaced, Some(kept));
    assert_eq!(discarded, None);
    assert_eq!(db.inodes[&kept].nlink, 0);
}

#[test]
fn a_directory_takes_its_parent_link_along() {
    let mut db = MemDb::new();
    let a = db.mkdir(1, "a").ino;
    let b = db.mkdir(1, "b").ino;
    let sub = db.mkdir(a, "sub").ino;
    assert_eq!(db.inodes[&a].nlink, 3);
    let (_, _, asked) = db.rename(a, "sub", b, "moved", &[]).unwrap();
    assert!(asked.contains(&RenameAsk::AskParents(b)));
    assert_eq!(db.inodes[&a].nlink, 2);
    assert_eq!(db.inodes[&b].nlink, 3);
    assert_eq!(db.child(b, "moved"), Some(sub));
}

#[test]
fn a_directory_does_not_move_below_itself() {
    let mut db = MemDb::new();
    let a = db.mkdir(1, "a").ino;
    let b = db.mkdir(a, "b").ino;
    assert!(matches!(db.rename(1, "a", b, "x", &[]), Err(FsError::InvalidRename)));
    assert!(matches!(db.rename(1, "a", a, "x", &[]), Err(FsError::InvalidRename)));
    assert_eq!(db.child(1, "a"), Some(a));
}

#[test]
fn refused_renames_name_the_reason() {
    let mut db = MemDb::new();
    let dir = db.mkdir(1, "dir").ino;
    let full = db.mkdir(1, "full").ino;
    db.create(full, "f");
    db.create(1, "file");
    assert!(matches!(
        db.rename(1, "file", 1, &"n".repeat(256), &[]),
        Err(FsError::NameTooLong)
    ));
    assert!(matches!(db.rename(1, "none", 1, "x", &[]), Err(FsError::NotFound)));
    assert!(matches!(db.rename(1, "file", 1, "dir", &[]), Err(FsError::IsADirectory)));
    assert!(matches!(db.rename(1, "dir", 1, "file", &[]), Err(FsError::NotADirectory)));
    assert!(matches!(db.rename(1, "dir", 1, "full", &[]), Err(FsError::NotEmpty)));
    db.entries.insert((1, "self".to_string()), 1);
    assert!(matches!(db.rename(1, "self", dir, "x", &[]), Err(FsError::RootOperation)));
    db.entries.remove(&(1, "self".to_string()));
    // A parent that nothing leads to, and one that two names lead to.
    assert!(matches!(db.rename(1, "dir", 77, "x", &[]), Err(FsError::NotFound)));
    db.entries.insert((1, "again".to_string()), full);
    assert!(matches!(db.rename(1, "dir", full, "x", &[]), Err(FsError::InvalidPath)));
}

#[test]
fn statements_bind_their_values() {
    let update = InodeUpdate::touch(4, LinkChange::Up, (10, 20));
    let statement = update.statement();
    assert!(statement.sql.starts_with("UPDATE fs_inode SET "));
    assert!(statement.sql.contains("nlink = nlink + 1"));
    assert!(matches!(statement.values.last(), Some(SqlValue::Integer(4))));
    let times: &PendingTimeChange = &update.times;
    assert_eq!((times.atime, times.mtime, times.ctime), (None, Some((10, 20)), Some((10, 20))));
    let inserted = RowChange::InsertDentry { parent: 1, name: "n".to_string(), ino: 5 };
    let statements = inserted.statements();
    assert_eq!(statements.len(), 1);
    assert_eq!(
        statements[0].sql,
        "INSERT INTO fs_dentry (name, parent_ino, ino) VALUES (?, ?, ?)"
    );
}
