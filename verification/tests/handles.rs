use agentfs_core::flags::{is_write_open, OpenBits};
use agentfs_core::semantics::durability::{
    commit_barrier, write_steps, AckDurability, Barrier, WriteReceipt, WriteStep,
};
use agentfs_core::semantics::handles::{Authority, FileId, Handle, HandleTable};

fn grant_write_authority_with_token_for_test(table: &mut HandleTable, ino: i64, token: u64) -> u64 {
    assert!(table.try_grant_write_authority_with_token(ino, token));
    token
}

#[test]
fn write_authority_tokens_evict_least_recently_used_token() {
    let mut table = HandleTable::with_limits(2, 2);

    let first = grant_write_authority_with_token_for_test(&mut table, 10, 101);
    let second = grant_write_authority_with_token_for_test(&mut table, 20, 202);
    assert!(table.has_write_authority(10, first));
    assert!(table.has_write_authority(20, second));

    // Touch the first token so the second token becomes the LRU victim.
    assert!(table.has_write_authority(10, first));
    let third = grant_write_authority_with_token_for_test(&mut table, 30, 303);

    assert!(table.has_write_authority(10, first));
    assert!(!table.has_write_authority(20, second));
    assert!(table.has_write_authority(30, third));
}

#[test]
fn write_authority_tokens_are_invalidated_by_inode() {
    let mut table = HandleTable::with_limits(4, 4);

    let victim = grant_write_authority_with_token_for_test(&mut table, 10, 101);
    let unrelated = grant_write_authority_with_token_for_test(&mut table, 20, 202);
    table.invalidate_ino(10);

    assert!(!table.has_write_authority(10, victim));
    assert!(table.has_write_authority(20, unrelated));
}

#[test]
fn readdirplus_can_reuse_a_live_write_authority_token() {
    let mut table = HandleTable::with_limits(4, 4);
    let token = grant_write_authority_with_token_for_test(&mut table, 10, 101);

    assert_eq!(table.authority_token_for_ino(10), Some(token));
    assert!(table.has_write_authority(10, token));
    assert_eq!(table.authority_token_for_ino(20), None);
}

#[test]
fn a_token_is_granted_once() {
    let mut table = HandleTable::with_limits(4, 4);
    assert!(table.try_grant_write_authority_with_token(10, 7));
    assert!(!table.try_grant_write_authority_with_token(20, 7));
    assert!(table.has_write_authority(10, 7));
    assert!(!table.has_write_authority(20, 7));
}

#[test]
fn the_token_used_last_is_reused() {
    let mut table = HandleTable::default();
    assert!(table.try_grant_write_authority_with_token(10, 1));
    assert!(table.try_grant_write_authority_with_token(10, 2));
    assert_eq!(table.authority_token_for_ino(10), Some(2));
    assert!(table.has_write_authority(10, 1));
    assert_eq!(table.authority_token_for_ino(10), Some(1));
}

fn file(number: u64) -> FileId {
    FileId { number }
}

#[test]
fn open_files_are_reused_and_invalidated_by_inode() {
    let mut table = HandleTable::with_limits(4, 4);
    assert_eq!(table.cached(5, Authority::Read), None);
    let (first, dropped) = table.opened(5, Authority::Read, file(1));
    assert_eq!(first, Handle { ino: 5, authority: Authority::Read, file: file(1) });
    assert_eq!(dropped, None);
    assert_eq!(table.cached(5, Authority::Read), Some(first));
    assert_eq!(table.invalidate_ino(5), Some(file(1)));
    assert_eq!(table.cached(5, Authority::Read), None);
    assert_eq!(table.invalidate_ino(5), None);
}

#[test]
fn a_write_open_replaces_a_read_open() {
    let mut table = HandleTable::with_limits(4, 4);
    let (read, _) = table.opened(5, Authority::Read, file(1));
    assert_eq!(read.authority(), Authority::Read);
    assert_eq!(table.cached(5, Authority::Write), None);
    let (write, dropped) = table.opened(5, Authority::Write, file(2));
    assert_eq!(write.authority(), Authority::Write);
    assert_eq!(write.ino(), 5);
    assert_eq!(dropped, Some(file(1)));
    let reread = table.cached(5, Authority::Read).unwrap();
    assert_eq!(reread.file(), &file(2));
    // A file that lost the race is not kept.
    let (winner, loser) = table.opened(5, Authority::Read, file(3));
    assert_eq!(winner, write);
    assert_eq!(loser, Some(file(3)));
}

#[test]
fn the_open_file_unused_for_longest_goes_first() {
    let mut table = HandleTable::with_limits(1, 2);
    table.opened(1, Authority::Read, file(1));
    table.opened(2, Authority::Read, file(2));
    assert!(table.cached(1, Authority::Read).is_some());
    let (_, dropped) = table.opened(3, Authority::Read, file(3));
    assert_eq!(dropped, Some(file(2)));
    assert!(table.cached(1, Authority::Read).is_some());
    assert!(table.cached(2, Authority::Read).is_none());
}

#[test]
fn open_flags_follow_the_authority() {
    assert_eq!(Authority::Read.open_flags(&OpenBits::machine()), libc::O_RDONLY);
    assert_eq!(Authority::Write.open_flags(&OpenBits::machine()), libc::O_RDWR);
}

#[test]
fn committed_writes_are_synced_before_they_are_acknowledged() {
    let receipt = |durability| WriteReceipt { count: 15, durability };
    assert_eq!(
        write_steps(15, AckDurability::Committed),
        vec![
            WriteStep::Write,
            WriteStep::Sync,
            WriteStep::Acknowledge(receipt(AckDurability::Committed)),
        ]
    );
    assert_eq!(
        write_steps(15, AckDurability::Volatile),
        vec![WriteStep::Write, WriteStep::Acknowledge(receipt(AckDurability::Volatile))]
    );
    assert_eq!(commit_barrier(Some(4)), Barrier::Inode(4));
    assert_eq!(commit_barrier(None), Barrier::All);
}

#[test]
fn the_token_used_last_stands_for_its_inode() {
    let mut table = HandleTable::with_limits(3, 3);
    assert!(table.try_grant_write_authority_with_token(10, 1));
    assert!(table.try_grant_write_authority_with_token(10, 2));
    assert!(table.try_grant_write_authority_with_token(20, 3));
    assert_eq!(table.authority_token_for_ino(10), Some(2));
    assert!(table.has_write_authority(10, 1));
    assert_eq!(table.authority_token_for_ino(10), Some(1));
    assert!(table.try_grant_write_authority_with_token(30, 4));
    assert!(table.has_write_authority(10, 1));
    assert!(!table.has_write_authority(20, 3));
}

#[test]
fn only_a_writer_opens_for_writing() {
    let bits = OpenBits::machine();
    assert!(is_write_open(Authority::Write.open_flags(&bits), &bits));
    assert!(!is_write_open(Authority::Read.open_flags(&bits), &bits));
}
