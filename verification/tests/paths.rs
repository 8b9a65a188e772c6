use agentfs_core::error::FsError;
use agentfs_core::lookup::{
    cached_lookup, check_listable, check_readable_link, component_of, config_size, dir_names,
    entries_after, entry_count, entry_of, fetch_limit, filesystem_stats, link_target, page, page_start, parent_of,
    CachedLookup, DirEntry, PageStart,
};
use agentfs_core::numbers::{parse_i64, parse_u64, parse_usize};
use agentfs_core::path::{normalize_path, parent_and_name, split_path, PathWalk};
use agentfs_core::sql::SqlValue;
use agentfs_core::stats::{Stats, S_IFDIR, S_IFLNK, S_IFREG};
use agentfs_core::text::{i64_to_text, u64_to_text};
use std::collections::BTreeMap;

fn stats(ino: i64) -> Stats {
    Stats {
        ino,
        mode: S_IFREG,
        nlink: 1,
        uid: 0,
        gid: 0,
        size: 0,
        atime: 0,
        mtime: 0,
        ctime: 0,
        atime_nsec: 0,
        mtime_nsec: 0,
        ctime_nsec: 0,
        rdev: 0,
    }
}

#[test]
fn paths_are_normalized() {
    for (path, normal) in [
        ("/", "/"),
        ("", "/"),
        ("///", "/"),
        ("/a/b/", "/a/b"),
        ("/a/./b", "/a/b"),
        ("/a/../b", "/b"),
        ("/../..", "/"),
        ("a/b", "/a/b"),
        ("/a//b", "/a/b"),
    ] {
        assert_eq!(normalize_path(path), normal, "{path:?}");
    }
    assert_eq!(split_path("/a/b/../c"), vec!["a", "c"]);
    assert_eq!(parent_and_name("/a/b").unwrap(), ("/a".to_string(), "b".to_string()));
    assert_eq!(parent_and_name("/a").unwrap(), ("/".to_string(), "a".to_string()));
    assert!(matches!(parent_and_name("/"), Err(FsError::RootOperation)));
}

#[test]
fn a_walk_follows_the_entries() {
    let entries = BTreeMap::from([((1, "a"), 2), ((2, "b"), 3)]);
    let mut walk = PathWalk::to("/a/./b");
    while !walk.is_done() {
        let next = entries[&(walk.current, walk.wanted())];
        walk.enter(next);
    }
    assert_eq!(walk.current, 3);
    assert_eq!(PathWalk::along("/x/y").names, vec!["x", "y"]);
}

#[test]
fn numbers_are_read_and_written() {
    assert_eq!(parse_u64("18446744073709551615"), Some(u64::MAX));
    assert_eq!(parse_u64("18446744073709551616"), None);
    assert_eq!(parse_u64("+7"), Some(7));
    assert_eq!(parse_u64("-7"), None);
    assert_eq!(parse_u64(""), None);
    assert_eq!(parse_usize("0012"), Some(12));
    assert_eq!(parse_i64("-9223372036854775808"), Some(i64::MIN));
    assert_eq!(parse_i64("9223372036854775808"), None);
    assert_eq!(parse_i64("+"), None);
    for n in [0, 7, 10, 12345, u64::MAX] {
        assert_eq!(u64_to_text(n), format!("{n}"));
    }
    for n in [0, -1, i64::MIN, i64::MAX] {
        assert_eq!(i64_to_text(n), format!("{n}"));
    }
}

#[test]
fn caches_answer_lookups() {
    assert!(matches!(cached_lookup(&"n".repeat(256), false, None), Err(FsError::NameTooLong)));
    assert!(matches!(cached_lookup("..", true, None), Ok(CachedLookup::AskParent)));
    assert!(matches!(cached_lookup("x", true, None), Ok(CachedLookup::Missing)));
    assert!(matches!(cached_lookup("x", false, Some(stats(4))), Ok(CachedLookup::Found(found)) if found.ino == 4));
    assert!(matches!(cached_lookup("x", false, None), Ok(CachedLookup::Ask)));
    assert_eq!(parent_of(1, Some(SqlValue::Integer(9))), 1);
    assert_eq!(parent_of(5, Some(SqlValue::Integer(9))), 9);
    assert_eq!(parent_of(5, None), 1);
}

#[test]
fn rows_of_entries_are_read() {
    assert_eq!(entry_of(1, "x", &vec![]).unwrap(), None);
    assert_eq!(entry_of(1, "x", &vec![SqlValue::Integer(4)]).unwrap(), Some(4));
    assert!(matches!(
        entry_of(1, "x", &vec![SqlValue::Integer(4), SqlValue::Integer(5)]),
        Err(FsError::InvalidPath)
    ));
    assert!(matches!(
        entry_of(1, "x", &vec![SqlValue::Null]),
        Err(FsError::Corrupt(message)) if message == "invalid ino for dentry 1/x: expected integer"
    ));
    assert_eq!(component_of(&vec![SqlValue::Integer(4)]).unwrap(), Some(4));
    assert!(!check_listable(None).unwrap());
    assert!(check_listable(Some(S_IFDIR)).unwrap());
    assert!(matches!(check_listable(Some(S_IFREG)), Err(FsError::NotADirectory)));
    assert!(matches!(check_readable_link(Some(S_IFREG)), Err(FsError::NotASymlink)));
    assert!(check_readable_link(Some(S_IFLNK)).unwrap());
    assert_eq!(link_target(Some(SqlValue::Text("t".to_string()))).unwrap().as_deref(), Some("t"));
    assert_eq!(
        dir_names(&vec![SqlValue::Text("a".to_string()), SqlValue::Text("b".to_string())]),
        vec!["a", "b"]
    );
}

#[test]
fn pages_show_whether_more_follows() {
    let entries = |count: i64| {
        (0..count)
            .map(|i| DirEntry { name: format!("f{i}"), stats: stats(i + 2) })
            .collect::<Vec<_>>()
    };
    assert!(matches!(page_start(0, None), PageStart::Beginning));
    assert!(matches!(page_start(5, None), PageStart::Over));
    assert!(matches!(
        page_start(5, Some(SqlValue::Text("f".to_string()))),
        PageStart::After(name) if name == "f"
    ));
    assert_eq!(fetch_limit(10), 11);
    let more = page(entries(3), 2);
    assert_eq!((more.entries.len(), more.end), (2, false));
    let last = page(entries(2), 2);
    assert_eq!((last.entries.len(), last.end), (2, true));
}

#[test]
fn configuration_and_totals_are_read() {
    assert_eq!(config_size(Some(SqlValue::Text("512".to_string())), 9), 512);
    assert_eq!(config_size(Some(SqlValue::Text("many".to_string())), 9), 9);
    assert_eq!(config_size(Some(SqlValue::Integer(64)), 9), 64);
    assert_eq!(config_size(None, 9), 9);
    let totals = filesystem_stats(Some(SqlValue::Integer(3)), Some(SqlValue::Null));
    assert_eq!((totals.inodes, totals.bytes_used), (3, 0));
    assert_eq!(entry_count(Some(SqlValue::Integer(6))), 6);
    assert_eq!(entry_count(None), 0);
}

#[test]
fn a_listing_goes_on_after_an_inode() {
    let entries = || {
        [2, 3, 4]
            .map(|ino| DirEntry { name: format!("f{ino}"), stats: stats(ino) })
            .into_iter()
            .collect::<Vec<_>>()
    };
    let left = |start| {
        entries_after(entries(), start).into_iter().map(|entry| entry.stats.ino).collect::<Vec<_>>()
    };
    assert_eq!(left(0), vec![2, 3, 4]);
    assert_eq!(left(2), vec![3, 4]);
    assert_eq!(left(4), Vec::<i64>::new());
    assert_eq!(left(9), Vec::<i64>::new());
}
