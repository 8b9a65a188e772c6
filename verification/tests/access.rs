use agentfs_core::error::FsError;
use agentfs_core::semantics::access::{
    is_in_group, killpriv_mask, may_modify_directory, may_read, may_search, may_write,
    normalize_setattr_mode, setattr_allowed, sticky_delete_ok, sticky_rename_from_ok,
    without_killpriv, AttrChange, Credentials, TimeUpdate,
};
use agentfs_core::stats::{Stats, S_IFDIR, S_IFREG};

fn creds(uid: u32, gid: u32, groups: &[u32]) -> Credentials {
    Credentials::new(uid, gid, groups)
}

fn stats(mode: u32, uid: u32, gid: u32) -> Stats {
    Stats {
        ino: 2,
        mode,
        nlink: 1,
        uid,
        gid,
        size: 0,
        atime: 0,
        mtime: 0,
        ctime: 0,
        atime_nsec: 0,
        mtime_nsec: 0,
        ctime_nsec: 0,
        rdev: 0,
    }
}

#[test]
fn conformance_table_matches_kernel_default_permissions() {
    struct Case {
        name: &'static str,
        stats: Stats,
        creds: Credentials,
        read: bool,
        write: bool,
        search: bool,
    }

    let cases = [
        Case {
            name: "owner read write execute",
            stats: stats(S_IFREG | 0o700, 1000, 2000),
            creds: creds(1000, 9999, &[]),
            read: true,
            write: true,
            search: true,
        },
        Case {
            name: "matching primary group",
            stats: stats(S_IFREG | 0o070, 3000, 2000),
            creds: creds(1000, 2000, &[]),
            read: true,
            write: true,
            search: true,
        },
        Case {
            name: "matching auxiliary group",
            stats: stats(S_IFREG | 0o040, 3000, 2000),
            creds: creds(1000, 1000, &[2000]),
            read: true,
            write: false,
            search: false,
        },
        Case {
            name: "auxiliary group execute only directory",
            stats: stats(S_IFDIR | 0o010, 3000, 2000),
            creds: creds(1000, 1000, &[2000]),
            read: false,
            write: false,
            search: true,
        },
        Case {
            name: "primary group write without execute directory",
            stats: stats(S_IFDIR | 0o020, 3000, 2000),
            creds: creds(1000, 2000, &[]),
            read: false,
            write: true,
            search: false,
        },
        Case {
            name: "other write only",
            stats: stats(S_IFREG | 0o002, 2000, 2000),
            creds: creds(1000, 1000, &[]),
            read: false,
            write: true,
            search: false,
        },
        Case {
            name: "other execute only file",
            stats: stats(S_IFREG | 0o001, 2000, 2000),
            creds: creds(1000, 1000, &[]),
            read: false,
            write: false,
            search: true,
        },
        Case {
            name: "root reads and writes mode zero file",
            stats: stats(S_IFREG, 1000, 1000),
            creds: creds(0, 0, &[]),
            read: true,
            write: true,
            search: false,
        },
        Case {
            name: "root searches mode zero directory",
            stats: stats(S_IFDIR, 1000, 1000),
            creds: creds(0, 0, &[]),
            read: true,
            write: true,
            search: true,
        },
    ];

    println!("shared semantics::access conformance cases");
    let mut mismatches = 0usize;
    for case in cases {
        let got = (
            may_read(&case.stats, &case.creds),
            may_write(&case.stats, &case.creds),
            may_search(&case.stats, &case.creds),
        );
        let expected = (case.read, case.write, case.search);
        println!(
            "{}: expected=({},{},{}) access=({},{},{})",
            case.name, expected.0, expected.1, expected.2, got.0, got.1, got.2
        );
        if got != expected {
            mismatches += 1;
        }
    }
    println!("semantics::access conformance mismatches={mismatches}");
    assert_eq!(mismatches, 0);
}

#[test]
fn sticky_delete_and_killpriv_cases_match_posix() {
    let parent = stats(S_IFDIR | 0o1777, 10, 10);
    let victim = stats(S_IFREG | 0o644, 20, 20);

    assert!(sticky_delete_ok(&parent, &victim, &creds(10, 10, &[])));
    assert!(sticky_delete_ok(&parent, &victim, &creds(20, 20, &[])));
    assert!(!sticky_delete_ok(&parent, &victim, &creds(30, 30, &[])));

    let privileged = stats(S_IFREG | 0o6755, 20, 20);
    assert_eq!(killpriv_mask(&privileged, &creds(1000, 1000, &[])), 0o6000);
    assert_eq!(
        killpriv_mask(&privileged, &creds(0, 0, &[])),
        0o6000,
        "root chown/truncate follows Linux killpriv behavior for NFS SETATTR"
    );
    assert_eq!(
        killpriv_mask(&stats(S_IFDIR | 0o6755, 20, 20), &creds(0, 0, &[])),
        0,
        "killpriv only applies to regular files"
    );
}

#[test]
fn setattr_authorization_cases_match_kernel_rules() {
    let owned = stats(S_IFREG | 0o644, 1000, 2000);
    let other = creds(3000, 3000, &[]);
    let owner = creds(1000, 1000, &[2000]);

    assert!(setattr_allowed(
        &owned,
        &owner,
        &AttrChange {
            mode: Some(0o600),
            ..Default::default()
        }
    )
    .is_ok());
    assert!(setattr_allowed(
        &owned,
        &other,
        &AttrChange {
            mode: Some(0o600),
            ..Default::default()
        }
    )
    .is_err());
    assert!(setattr_allowed(
        &owned,
        &owner,
        &AttrChange {
            gid: Some(2000),
            ..Default::default()
        }
    )
    .is_ok());
    assert!(setattr_allowed(
        &owned,
        &owner,
        &AttrChange {
            gid: Some(3000),
            ..Default::default()
        }
    )
    .is_err());
    assert!(setattr_allowed(
        &owned,
        &owner,
        &AttrChange {
            atime: TimeUpdate::Explicit,
            ..Default::default()
        }
    )
    .is_ok());
}

#[test]
fn refusals_name_the_right_error() {
    let owned = stats(S_IFREG | 0o644, 1000, 2000);
    let other = creds(3000, 3000, &[]);
    let refused = |change: AttrChange| setattr_allowed(&owned, &other, &change);
    assert!(matches!(
        refused(AttrChange { size: true, ..Default::default() }),
        Err(FsError::PermissionDenied)
    ));
    assert!(matches!(
        refused(AttrChange { uid: Some(3000), ..Default::default() }),
        Err(FsError::OperationNotPermitted)
    ));
    assert!(matches!(
        refused(AttrChange { uid: Some(1000), ..Default::default() }),
        Ok(())
    ));
    assert!(matches!(
        refused(AttrChange { mtime: TimeUpdate::Explicit, ..Default::default() }),
        Err(FsError::OperationNotPermitted)
    ));
    assert!(matches!(
        refused(AttrChange { mtime: TimeUpdate::Now, ..Default::default() }),
        Err(FsError::PermissionDenied)
    ));
    assert!(setattr_allowed(
        &owned,
        &creds(0, 0, &[]),
        &AttrChange {
            size: true,
            mode: Some(0),
            uid: Some(5),
            gid: Some(6),
            atime: TimeUpdate::Explicit,
            mtime: TimeUpdate::Now,
        }
    )
    .is_ok());
}

#[test]
fn owners_are_held_to_the_owner_bits() {
    let file = stats(S_IFREG | 0o077, 1000, 2000);
    let owner = creds(1000, 2000, &[]);
    assert!(!may_read(&file, &owner));
    assert!(!may_write(&file, &owner));
    assert!(!may_search(&file, &owner));
}

#[test]
fn many_groups_are_all_seen() {
    let groups: Vec<u32> = (0..40).collect();
    let caller = creds(1000, 1000, &groups);
    assert!(is_in_group(&caller, 0));
    assert!(is_in_group(&caller, 39));
    assert!(!is_in_group(&caller, 40));
    assert_eq!(caller.clone(), caller);
    assert!(creds(1, 1, &[2, 3]) != creds(1, 1, &[3, 2]));
}

#[test]
fn a_directory_moves_only_with_its_owner() {
    let parent = stats(S_IFDIR | 0o777, 10, 10);
    let dir = stats(S_IFDIR | 0o755, 20, 20);
    assert!(may_modify_directory(&parent, &creds(30, 30, &[])));
    assert!(!sticky_rename_from_ok(&parent, &dir, &creds(30, 30, &[]), true));
    assert!(sticky_rename_from_ok(&parent, &dir, &creds(30, 30, &[]), false));
    assert!(sticky_rename_from_ok(&parent, &dir, &creds(20, 20, &[]), true));
    assert!(sticky_rename_from_ok(&parent, &dir, &creds(0, 0, &[]), true));
}

#[test]
fn mode_changes_are_normalized() {
    let file = stats(S_IFREG | 0o644, 1000, 2000);
    let change = AttrChange { mode: Some(0o102755), ..Default::default() };
    assert_eq!(normalize_setattr_mode(&file, &creds(1000, 1000, &[]), &change), Some(0o755));
    assert_eq!(
        normalize_setattr_mode(&file, &creds(1000, 1000, &[2000]), &change),
        Some(0o2755)
    );
    assert_eq!(normalize_setattr_mode(&file, &creds(0, 0, &[]), &change), Some(0o2755));
    assert_eq!(
        normalize_setattr_mode(&file, &creds(1000, 1000, &[]), &AttrChange::default()),
        None
    );
    let privileged = stats(S_IFREG | 0o6755, 20, 20);
    assert_eq!(
        without_killpriv(&privileged, &creds(20, 20, &[]), privileged.mode),
        S_IFREG | 0o755
    );
}
