use agentfs_core::copy_up::{
    cleanup_after_unlink, copy_kind, no_content_overrides, partial_open,
    validate_current_origin, validate_partial_origin, CopyKind, ParentAction, ParentDirs,
    PartialOpen,
};
use agentfs_core::error::{Error, FsError};
use agentfs_core::flags::{is_truncating_open, is_write_open, OpenBits};
use agentfs_core::lookup::DirEntry;
use agentfs_core::overlay::{
    attr_route, check_overlay_rename, check_overlay_rmdir, check_overlay_unlink,
    kernel_cache_policy, keep_cache_for_delta_open, keep_cache_for_read_open, needs_whiteout,
    open_route, read_from, removed_from_delta, visible_base_directory, ChangeRoute,
    KernelCachePolicy, OpenRoute, PartialOriginMode, PartialOriginPolicy, ReadFrom,
};
use agentfs_core::overlay_list::{overlay_readdir, overlay_readdir_plus};
use agentfs_core::overlay_lookup::{LookupAsk, OverlayLookup};
use agentfs_core::overlay_maps::{join_path, InodeInfo, Layer, OverlayMaps};
use agentfs_core::partial::{
    base_size_after_truncate, chunk_source, pad_chunk, partial_origin_from_row, prune_statement,
    required_size, seed_source, ChunkSource, PartialOrigin, PartialRead,
};
use agentfs_core::sql::SqlValue;
use agentfs_core::stats::{Stats, S_IFDIR, S_IFLNK, S_IFREG};
use agentfs_core::whiteouts::{
    directory_of, parent_path_for_whiteout, unhide_statement, whiteout_statement, Whiteouts,
};
use std::collections::{BTreeMap, HashMap};

fn stats(ino: i64, mode: u32) -> Stats {
    Stats {
        ino,
        mode,
        nlink: 1,
        uid: 4,
        gid: 5,
        size: 0,
        atime: 1,
        mtime: 2,
        ctime: 3,
        atime_nsec: 0,
        mtime_nsec: 0,
        ctime_nsec: 0,
        rdev: 0,
    }
}

fn hidden(paths: &[&str]) -> Whiteouts {
    let mut whiteouts = Whiteouts::new();
    for path in paths {
        whiteouts.insert(path);
    }
    whiteouts
}

fn info(layer: Layer, underlying_ino: i64, path: &str) -> InodeInfo {
    InodeInfo { layer, underlying_ino, path: path.to_string(), has_extra_reverse: false }
}

#[test]
fn hidden_paths_hide_what_is_below() {
    let mut whiteouts = hidden(&["/dir", "/a/b"]);
    assert!(whiteouts.is_whiteout("/dir"));
    assert!(whiteouts.is_whiteout("/dir/sub/file"));
    assert!(!whiteouts.is_whiteout("/directory"));
    assert!(!whiteouts.is_whiteout("/a"));
    assert_eq!(whiteouts.child_whiteouts("/a"), vec!["b"]);
    assert_eq!(whiteouts.child_whiteouts("/"), vec!["dir"]);
    assert!(unhide_statement(&whiteouts, "/dir").is_some());
    assert!(unhide_statement(&whiteouts, "/other").is_none());
    whiteouts.insert("/dir");
    whiteouts.remove("/dir");
    assert!(!whiteouts.is_whiteout("/dir/sub"));
    let statement = whiteout_statement("/a/b", 9);
    assert!(matches!(&statement.values[1], SqlValue::Text(parent) if parent == "/a"));
    assert_eq!(parent_path_for_whiteout("/top"), "/");
    assert_eq!(directory_of("/a/b/c"), "/a/b");
}

#[test]
fn overlay_numbers_are_stable() {
    let mut maps = OverlayMaps::new();
    let first = maps.get_or_create(Layer::Base, 40, "/f");
    assert_eq!(maps.get_or_create(Layer::Base, 40, "/f"), first);
    let second = maps.get_or_create(Layer::Delta, 40, "/g");
    assert_ne!(first, second);
    assert_eq!(maps.build_path(1, "f").unwrap(), "/f");
    assert!(matches!(maps.build_path(999, "f"), Err(FsError::NotFound)));
    maps.promote_to_delta("/f", 77);
    assert_eq!(maps.get_inode_info(first).unwrap().layer, Layer::Delta);
    maps.retain_lookup(first, 3);
    maps.forget_lookup(first, 2);
    assert!(maps.get_inode_info(first).is_some());
    // Both times that the number was given out count as lookups.
    maps.forget_lookup(first, 3);
    assert!(maps.get_inode_info(first).is_none());
    assert_eq!(maps.counts().path_entries, 2);
    // A number that was never given out is counted all the same.
    maps.retain_lookup(999, 2);
    maps.forget_lookup(999, 1);
    assert!(maps.get_inode_info(999).is_none());
    assert_eq!(join_path("/", "x"), "/x");
    assert_eq!(join_path("/d", "x"), "/d/x");
}

#[test]
fn listings_merge_both_layers() {
    let strings = |names: &[&str]| names.iter().map(|name| name.to_string()).collect::<Vec<_>>();
    let names = overlay_readdir(
        "/d",
        &hidden(&["/d/gone"]),
        &strings(&["new", "both"]),
        &strings(&["both", "gone", "base"]),
    );
    assert_eq!(names, vec!["base", "both", "new"]);

    let mut maps = OverlayMaps::new();
    let entry = |name: &str, ino: i64| DirEntry { name: name.to_string(), stats: stats(ino, S_IFREG) };
    let listed = overlay_readdir_plus(
        &mut maps,
        &HashMap::new(),
        "/d",
        &hidden(&["/d/gone"]),
        &vec![entry("both", 5)],
        &vec![entry("both", 50), entry("gone", 51), entry("base", 52)],
    );
    let found: Vec<&str> = listed.iter().map(|entry| entry.name.as_str()).collect();
    assert_eq!(found, vec!["base", "both"]);
    let both = maps.get_inode_info(listed[1].stats.ino).unwrap();
    assert_eq!((both.layer, both.underlying_ino), (Layer::Delta, 5));
}

struct Fake {
    delta: BTreeMap<(i64, String), Stats>,
    base: BTreeMap<(i64, String), Stats>,
}

impl Fake {
    fn lookup(
        &self,
        maps: &mut OverlayMaps,
        origins: &HashMap<i64, i64>,
        whiteouts: &Whiteouts,
        parent: i64,
        name: &str,
    ) -> Result<(Option<Stats>, usize), FsError> {
        let mut lookup = OverlayLookup::start(maps, whiteouts, parent, name)?;
        let mut asked = 0;
        loop {
            let wanted = lookup.wanted().to_string();
            let found = match lookup.asked {
                LookupAsk::DeltaStep(dir) | LookupAsk::DeltaName(dir) => {
                    self.delta.get(&(dir, wanted)).copied()
                }
                LookupAsk::BaseStep(dir) | LookupAsk::BaseName(dir) => {
                    self.base.get(&(dir, wanted)).copied()
                }
                LookupAsk::Found(found) => return Ok((found, asked)),
            };
            asked += 1;
            lookup.step(maps, origins, found);
        }
    }
}

#[test]
fn lookups_try_the_delta_then_the_base() {
    let key = |dir: i64, name: &str| (dir, name.to_string());
    let mut fake = Fake { delta: BTreeMap::new(), base: BTreeMap::new() };
    fake.base.insert(key(1, "dir"), stats(10, S_IFDIR));
    fake.base.insert(key(10, "file"), stats(11, S_IFREG));
    fake.base.insert(key(10, "old"), stats(12, S_IFREG));
    let mut maps = OverlayMaps::new();
    let origins = HashMap::new();
    let shown = hidden(&[]);

    let (dir, _) = fake.lookup(&mut maps, &origins, &shown, 1, "dir").unwrap();
    let dir = dir.unwrap().ino;
    assert_eq!(maps.get_inode_info(dir).unwrap().layer, Layer::Base);
    let (file, asked) = fake.lookup(&mut maps, &origins, &shown, dir, "file").unwrap();
    let number = file.unwrap().ino;
    assert_eq!(asked, 2);

    // The file is copied up: the delta now has the directory and the file.
    fake.delta.insert(key(1, "dir"), stats(2, S_IFDIR));
    fake.delta.insert(key(2, "file"), stats(3, S_IFREG));
    let origins = HashMap::from([(3, 11)]);
    let (copied, _) = fake.lookup(&mut maps, &origins, &shown, dir, "file").unwrap();
    assert_eq!(copied.unwrap().ino, number);
    assert_eq!(maps.get_inode_info(number).unwrap().layer, Layer::Delta);

    // A directory of the delta is looked up in the base by its path.
    let mut fresh = OverlayMaps::new();
    let (dir, _) = fake.lookup(&mut fresh, &origins, &shown, 1, "dir").unwrap();
    let dir = dir.unwrap().ino;
    assert_eq!(fresh.get_inode_info(dir).unwrap().layer, Layer::Delta);
    let (old, _) = fake.lookup(&mut fresh, &origins, &shown, dir, "old").unwrap();
    assert_eq!(fresh.get_inode_info(old.unwrap().ino).unwrap().underlying_ino, 12);
    assert_eq!(fake.lookup(&mut fresh, &origins, &shown, dir, "none").unwrap().0, None);
    assert_eq!(
        fake.lookup(&mut fresh, &origins, &hidden(&["/dir"]), dir, "old").unwrap(),
        (None, 0)
    );
    assert!(matches!(
        fake.lookup(&mut fresh, &origins, &shown, 999, "x"),
        Err(FsError::NotFound)
    ));
}

#[test]
fn opens_copy_up_only_to_write() {
    let base = info(Layer::Base, 9, "/f");
    let shown = hidden(&[]);
    let file = Stats { size: 2_000_000, ..stats(9, S_IFREG | 0o644) };
    let policy = PartialOriginPolicy::new(PartialOriginMode::Auto);
    assert!(policy.permits(&file));
    assert!(!policy.with_threshold_bytes(3_000_000).permits(&file));
    assert!(!PartialOriginPolicy::default().permits(&file));
    let open = |flags: i32, policy: &PartialOriginPolicy| {
        open_route(Some(&base), &shown, policy, flags, &OpenBits::machine(), Some(file))
    };
    assert_eq!(open(libc::O_RDONLY, &policy).unwrap(), OpenRoute::Base(9));
    assert_eq!(open(libc::O_WRONLY, &policy).unwrap(), OpenRoute::PartialCopyUp);
    assert_eq!(open(libc::O_RDWR, &PartialOriginPolicy::default()).unwrap(), OpenRoute::CopyUp);
    let gone = hidden(&["/f"]);
    assert!(matches!(
        open_route(Some(&base), &gone, &policy, libc::O_RDONLY, &OpenBits::machine(), Some(file)),
        Err(FsError::NotFound)
    ));
    let delta = info(Layer::Delta, 3, "/f");
    assert_eq!(
        open_route(Some(&delta), &gone, &policy, libc::O_RDWR, &OpenBits::machine(), None).unwrap(),
        OpenRoute::Delta(3)
    );
    assert_eq!(read_from(Some(&base), &shown), ReadFrom::Base(9));
    assert_eq!(read_from(Some(&base), &gone), ReadFrom::Nowhere);
    assert_eq!(read_from(None, &shown), ReadFrom::Nowhere);
    assert_eq!(
        attr_route(Some(&base), &shown, &policy, Some(file)).unwrap(),
        ChangeRoute::PartialCopyUp
    );
    assert_eq!(attr_route(Some(&delta), &shown, &policy, None).unwrap(), ChangeRoute::Delta(3));
}

#[test]
fn flags_are_those_of_the_c_library() {
    let bits = OpenBits::machine();
    assert!(!is_write_open(libc::O_RDONLY, &bits));
    assert!(is_write_open(libc::O_WRONLY, &bits));
    assert!(is_write_open(libc::O_RDWR, &bits));
    assert!(is_write_open(libc::O_RDONLY | libc::O_TRUNC, &bits));
    assert!(is_truncating_open(libc::O_WRONLY | libc::O_TRUNC, &bits));
    assert!(!is_truncating_open(libc::O_RDWR, &bits));
}

#[test]
fn kernel_caches_keep_what_is_stable() {
    let base = info(Layer::Base, 9, "/f");
    let delta = info(Layer::Delta, 3, "/f");
    let file = Some(stats(9, S_IFREG));
    assert_eq!(kernel_cache_policy(Some(&base), &hidden(&[])), KernelCachePolicy::ExternalDrift);
    assert_eq!(kernel_cache_policy(Some(&delta), &hidden(&[])), KernelCachePolicy::Stable);
    let bits = OpenBits::machine();
    assert!(keep_cache_for_read_open(Some(&base), libc::O_RDONLY, &bits, false, file).unwrap().is_some());
    assert!(keep_cache_for_read_open(Some(&base), libc::O_RDWR, &bits, false, file).unwrap().is_none());
    assert!(keep_cache_for_read_open(Some(&delta), libc::O_RDONLY, &bits, false, file).unwrap().is_none());
    assert!(keep_cache_for_read_open(Some(&delta), libc::O_RDONLY, &bits, true, file).unwrap().is_some());
    assert!(keep_cache_for_read_open(None, libc::O_RDONLY, &bits, true, file).is_err());
    assert!(keep_cache_for_delta_open(libc::O_RDONLY, &bits, true, file).is_some());
}

#[test]
fn removals_hide_what_still_shows() {
    assert!(matches!(check_overlay_unlink(None), Err(FsError::NotFound)));
    assert!(matches!(check_overlay_unlink(Some(stats(1, S_IFDIR))), Err(FsError::IsADirectory)));
    assert!(check_overlay_unlink(Some(stats(1, S_IFREG))).is_ok());
    assert!(matches!(check_overlay_rmdir(Some(stats(1, S_IFDIR)), 2), Err(FsError::NotEmpty)));
    assert!(matches!(
        check_overlay_rmdir(Some(stats(1, S_IFREG)), 0),
        Err(FsError::NotADirectory)
    ));
    assert!(removed_from_delta(Err(FsError::NotFound)).is_ok());
    assert!(removed_from_delta(Err(FsError::NotEmpty)).is_err());
    assert!(needs_whiteout(Some(stats(1, S_IFREG))));
    assert!(!needs_whiteout(None));
    let shown = hidden(&[]);
    assert!(visible_base_directory(&shown, "/d", Some(stats(1, S_IFDIR))));
    assert!(!visible_base_directory(&hidden(&["/d"]), "/d", Some(stats(1, S_IFDIR))));
    assert!(matches!(
        check_overlay_rename(Some(stats(1, S_IFDIR)), true),
        Err(FsError::CrossDevice)
    ));
    assert!(check_overlay_rename(Some(stats(1, S_IFREG)), false).is_ok());
}

#[test]
fn parents_are_made_on_the_way() {
    let mut dirs = ParentDirs::new("/a/b/file", 7, 8);
    assert_eq!((dirs.wanted(), dirs.wanted_path().as_str()), ("a", "/a"));
    let made = dirs.found(None, Some(stats(50, S_IFDIR))).unwrap();
    assert!(matches!(made, ParentAction::Make { uid: 4, gid: 5 }));
    assert_eq!(dirs.made(2), Some(50));
    assert_eq!((dirs.wanted(), dirs.wanted_path().as_str()), ("b", "/a/b"));
    assert!(matches!(dirs.found(None, None).unwrap(), ParentAction::Make { uid: 7, gid: 8 }));
    assert_eq!(dirs.made(3), None);
    assert!(dirs.is_done());
    let mut blocked = ParentDirs::new("/a/file", 7, 8);
    assert!(matches!(
        blocked.found(Some(stats(2, S_IFREG)), None),
        Err(FsError::NotADirectory)
    ));
}

#[test]
fn files_are_copied_by_kind() {
    assert_eq!(copy_kind(&stats(1, S_IFLNK | 0o777)), CopyKind::Symlink);
    assert_eq!(copy_kind(&stats(1, S_IFDIR | 0o750)), CopyKind::Directory { mode: 0o750 });
    let file = Stats { size: 12, ..stats(1, S_IFREG | 0o640) };
    assert_eq!(copy_kind(&file), CopyKind::File { mode: S_IFREG | 0o640, size: 12 });
    assert_eq!(cleanup_after_unlink(3, true).len(), 0);
    assert!(!cleanup_after_unlink(3, false).is_empty());
}

fn origin() -> PartialOrigin {
    partial_origin_from_row(&vec![
        SqlValue::Text("/f".to_string()),
        SqlValue::Integer(10),
        SqlValue::Integer(-1),
        SqlValue::Integer(2),
        SqlValue::Integer(0),
        SqlValue::Integer(3),
        SqlValue::Integer(0),
    ])
    .unwrap()
}

#[test]
fn a_changed_base_is_refused() {
    let origin = origin();
    assert_eq!(origin.base_fingerprint_size, 10);
    let same = Stats { size: 10, ..stats(9, S_IFREG) };
    assert!(validate_partial_origin(&origin, &same).is_ok());
    assert!(validate_current_origin(&origin, Some(same)).is_ok());
    assert!(validate_current_origin(&origin, None).is_err());
    assert!(matches!(
        validate_partial_origin(&origin, &Stats { size: 11, ..same }),
        Err(Error::Internal(message))
            if message == "partial-origin base changed for /f (stored size=10, current size=11)"
    ));
    assert!(matches!(
        validate_partial_origin(&origin, &Stats { mtime: 8, ..same }),
        Err(Error::Internal(message)) if message.contains("stored mtime=2")
    ));
}

#[test]
fn untouched_files_pass_through() {
    let inode = |size: i64, inline: SqlValue| Some((Ok(size), inline));
    assert!(no_content_overrides(false, false, inode(10, SqlValue::Null), 10).unwrap());
    assert!(!no_content_overrides(false, false, inode(9, SqlValue::Null), 10).unwrap());
    assert!(!no_content_overrides(true, false, inode(10, SqlValue::Null), 10).unwrap());
    assert!(!no_content_overrides(false, false, inode(10, SqlValue::Blob(vec![1])), 10).unwrap());
    assert!(matches!(
        no_content_overrides(false, false, Some((Err("bad".to_string()), SqlValue::Null)), 10),
        Err(Error::Internal(message)) if message == "fs_inode.size read failed: bad"
    ));
    let bits = OpenBits::machine();
    assert_eq!(partial_open(libc::O_RDONLY, &bits, true), PartialOpen::Passthrough);
    assert_eq!(partial_open(libc::O_RDONLY, &bits, false), PartialOpen::Merged { truncate: false });
    assert_eq!(
        partial_open(libc::O_WRONLY | libc::O_TRUNC, &bits, true),
        PartialOpen::Merged { truncate: true }
    );
}

#[test]
fn chunks_come_from_the_delta_or_the_base() {
    assert_eq!(chunk_source(1, true, 4, 10).unwrap(), ChunkSource::Delta { start: 4 });
    assert_eq!(chunk_source(2, false, 4, 10).unwrap(), ChunkSource::Base { start: 8, len: 2 });
    assert_eq!(chunk_source(3, false, 4, 10).unwrap(), ChunkSource::Zeros);
    assert!(matches!(
        chunk_source(u64::MAX, false, 4, 10),
        Err(Error::Internal(message)) if message == "chunk offset overflow"
    ));
    assert_eq!(seed_source(2, 4, 10).unwrap(), Some((8, 2)));
    assert_eq!(seed_source(3, 4, 10).unwrap(), None);
    assert!(seed_source(-1, 4, 10).is_err());
    assert_eq!(pad_chunk(b"ab".to_vec(), 4), b"ab\0\0");
}

#[test]
fn a_partial_read_joins_the_chunks() {
    let chunks: [&[u8]; 3] = [b"abcd", b"EFGH", b"ij\0\0"];
    let mut read = PartialRead::new(2, 100, 10, 4).unwrap();
    let mut wanted = Vec::new();
    while !read.is_done() {
        let index = read.wanted();
        wanted.push(index);
        read.feed(&chunks[index as usize].to_vec());
    }
    assert_eq!(wanted, vec![0, 1, 2]);
    assert_eq!(read.bytes, b"cdEFGHij");
    assert!(PartialRead::new(10, 1, 10, 4).is_none());
    assert_eq!(base_size_after_truncate(3, 10), Some(3));
    assert_eq!(base_size_after_truncate(30, 10), None);
    assert_eq!(prune_statement(5, 0, 4).values.len(), 1);
    assert!(matches!(prune_statement(5, 9, 4).values[1], SqlValue::Integer(2)));
    // The last chunk that is kept is the last that begins before the end.
    for size in 1..20u64 {
        let last = match prune_statement(5, size, 4).values[1] {
            SqlValue::Integer(last) => last as u64,
            _ => panic!("the chunk index is a number"),
        };
        assert!(last * 4 < size && (last + 1) * 4 >= size);
    }
    assert_eq!(required_size(Some(SqlValue::Integer(12))).unwrap(), 12);
    assert!(required_size(None).is_err());
}
