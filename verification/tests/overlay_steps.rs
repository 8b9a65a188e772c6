use agentfs_core::copy_steps::{CopyAsk, CopyReply, CopyUp};
use agentfs_core::copy_up::CopyKind;
use agentfs_core::error::FsError;
use agentfs_core::overlay_create::{MakeAsk, MakeReply, NewEntry, OverlayCreate};
use agentfs_core::overlay_maps::{Layer, OverlayMaps};
use agentfs_core::overlay_remove::{OverlayRemove, RemoveAsk, RemoveReply};
use agentfs_core::overlay_rename::{MoveAsk, MoveReply, OverlayRename};
use agentfs_core::stats::{Stats, S_IFDIR, S_IFLNK, S_IFREG};

fn stats(ino: i64, mode: u32) -> Stats {
    Stats {
        ino,
        mode,
        nlink: 1,
        uid: 4,
        gid: 5,
        size: 12,
        atime: 1,
        mtime: 2,
        ctime: 3,
        atime_nsec: 0,
        mtime_nsec: 0,
        ctime_nsec: 0,
        rdev: 0,
    }
}

#[test]
fn an_unlinked_base_file_is_hidden() {
    let maps = OverlayMaps::new();
    let file = stats(7, S_IFREG);
    let mut removal = OverlayRemove::start(&maps, 1, "f", false).unwrap();
    assert_eq!(removal.path, "/f");
    removal.step(RemoveReply::Found(Some(file))).unwrap();
    assert_eq!(removal.asked, RemoveAsk::DeltaParent);
    removal.step(RemoveReply::Dir(Some(1))).unwrap();
    assert_eq!(removal.asked, RemoveAsk::FindInDelta(1));
    removal.step(RemoveReply::Found(None)).unwrap();
    assert_eq!(removal.asked, RemoveAsk::RemoveInDelta(1));
    removal.step(RemoveReply::Removed(Err(FsError::NotFound))).unwrap();
    assert_eq!(removal.asked, RemoveAsk::LookAgain);
    removal.step(RemoveReply::Found(Some(file))).unwrap();
    assert_eq!(removal.asked, RemoveAsk::Hide);
    removal.step(RemoveReply::Done).unwrap();
    assert_eq!(removal.asked, RemoveAsk::Finish);
}

#[test]
fn an_unlinked_delta_file_hides_nothing() {
    let maps = OverlayMaps::new();
    let mut removal = OverlayRemove::start(&maps, 1, "f", false).unwrap();
    removal.step(RemoveReply::Found(Some(stats(7, S_IFREG)))).unwrap();
    removal.step(RemoveReply::Dir(Some(1))).unwrap();
    removal.step(RemoveReply::Found(Some(stats(3, S_IFREG)))).unwrap();
    removal.step(RemoveReply::Removed(Ok(()))).unwrap();
    assert_eq!(removal.asked, RemoveAsk::CleanUp(3));
    removal.step(RemoveReply::Done).unwrap();
    removal.step(RemoveReply::Found(None)).unwrap();
    assert_eq!(removal.asked, RemoveAsk::Finish);
}

#[test]
fn removals_refuse_the_wrong_kind() {
    let maps = OverlayMaps::new();
    assert!(matches!(OverlayRemove::start(&maps, 99, "f", false), Err(FsError::NotFound)));
    let start = |directory| OverlayRemove::start(&maps, 1, "f", directory).unwrap();
    let dir = stats(7, S_IFDIR);
    assert!(matches!(start(false).step(RemoveReply::Found(None)), Err(FsError::NotFound)));
    assert!(matches!(start(true).step(RemoveReply::Found(None)), Err(FsError::NotFound)));
    assert!(matches!(
        start(false).step(RemoveReply::Found(Some(dir))),
        Err(FsError::IsADirectory)
    ));
    assert!(matches!(
        start(true).step(RemoveReply::Found(Some(stats(7, S_IFREG)))),
        Err(FsError::NotADirectory)
    ));
    let mut full = start(true);
    full.step(RemoveReply::Found(Some(dir))).unwrap();
    assert_eq!(full.asked, RemoveAsk::CountEntries(dir));
    assert!(matches!(full.step(RemoveReply::Entries(2)), Err(FsError::NotEmpty)));
    full.step(RemoveReply::Entries(0)).unwrap();
    full.step(RemoveReply::Dir(Some(1))).unwrap();
    assert_eq!(full.asked, RemoveAsk::RemoveInDelta(1));
    assert!(matches!(
        full.step(RemoveReply::Removed(Err(FsError::NotEmpty))),
        Err(FsError::NotEmpty)
    ));
}

#[test]
fn a_base_file_is_copied_before_it_is_renamed() {
    let maps = OverlayMaps::new();
    let file = stats(7, S_IFREG);
    let mut rename = OverlayRename::start(&maps, 1, "old", 1, "new").unwrap();
    assert_eq!((rename.old_path.as_str(), rename.new_path.as_str()), ("/old", "/new"));
    let mut asked = Vec::new();
    for reply in [
        MoveReply::Found(Some(file)),
        MoveReply::Place(Some((Layer::Base, 70))),
        MoveReply::Found(Some(stats(9, S_IFREG))),
        MoveReply::Done,
        MoveReply::Inode(3),
        MoveReply::Done,
        MoveReply::Dir(Some(1)),
        MoveReply::Dir(Some(1)),
        MoveReply::Done,
        MoveReply::Done,
        MoveReply::Found(Some(file)),
        MoveReply::Done,
    ] {
        rename.step(reply).unwrap();
        asked.push(rename.state.asked);
    }
    assert_eq!(
        asked,
        vec![
            MoveAsk::PlaceOf(file),
            MoveAsk::FindTarget,
            MoveAsk::Unhide,
            MoveAsk::CopySource(70),
            MoveAsk::MakeParents,
            MoveAsk::OldParent,
            MoveAsk::NewParent,
            MoveAsk::MoveEntry { from: 1, to: 1 },
            MoveAsk::Refresh { ino: 7, delta_ino: 3 },
            MoveAsk::LookAgain,
            MoveAsk::Hide,
            MoveAsk::Finish,
        ]
    );
    assert_eq!(rename.replaced(), Some(9));
}

#[test]
fn base_directories_are_not_renamed() {
    let maps = OverlayMaps::new();
    assert!(matches!(OverlayRename::start(&maps, 1, "a", 50, "b"), Err(FsError::NotFound)));
    let dir = stats(7, S_IFDIR);
    let mut rename = OverlayRename::start(&maps, 1, "a", 1, "b").unwrap();
    assert!(matches!(rename.step(MoveReply::Found(None)), Err(FsError::NotFound)));
    rename.step(MoveReply::Found(Some(dir))).unwrap();
    assert!(matches!(rename.step(MoveReply::Place(None)), Err(FsError::NotFound)));
    rename.step(MoveReply::Place(Some((Layer::Delta, 3)))).unwrap();
    assert_eq!(rename.state.asked, MoveAsk::BaseShows(dir));
    assert!(matches!(rename.step(MoveReply::Shows(true)), Err(FsError::CrossDevice)));
    rename.step(MoveReply::Shows(false)).unwrap();
    rename.step(MoveReply::Found(None)).unwrap();
    rename.step(MoveReply::Done).unwrap();
    assert_eq!(rename.state.asked, MoveAsk::MakeParents);
    rename.step(MoveReply::Done).unwrap();
    assert!(matches!(rename.step(MoveReply::Dir(None)), Err(FsError::NotFound)));
    assert_eq!(rename.replaced(), None);
}

#[test]
fn new_names_are_shown_again() {
    let maps = OverlayMaps::new();
    let mut making = OverlayCreate::start(&maps, 1, "d", NewEntry::Directory, 4, 5).unwrap();
    assert_eq!((making.path.as_str(), making.state.asked), ("/d", MakeAsk::FindExisting));
    assert!(matches!(
        making.step(MakeReply::Found(Some(stats(7, S_IFREG)))),
        Err(FsError::AlreadyExists)
    ));
    making.step(MakeReply::Found(None)).unwrap();
    assert_eq!(making.state.asked, MakeAsk::Unhide);
    making.step(MakeReply::Done).unwrap();
    assert_eq!(making.state.asked, MakeAsk::MakeParents { uid: 4, gid: 5 });
    making.step(MakeReply::Done).unwrap();
    assert!(matches!(making.step(MakeReply::Dir(None)), Err(FsError::NotFound)));
    making.step(MakeReply::Dir(Some(1))).unwrap();
    assert_eq!(making.state.asked, MakeAsk::Make(1));
    making.step(MakeReply::Done).unwrap();
    assert_eq!(making.state.asked, MakeAsk::Finish);
    let other = OverlayCreate::start(&maps, 1, "f", NewEntry::Other, 4, 5).unwrap();
    assert_eq!(other.state.asked, MakeAsk::Unhide);
}

#[test]
fn a_base_file_is_copied_before_it_is_linked() {
    let mut maps = OverlayMaps::new();
    let base = maps.get_or_create(Layer::Base, 70, "/f");
    let delta = maps.get_or_create(Layer::Delta, 3, "/g");
    let mut link = OverlayCreate::start(&maps, 1, "l", NewEntry::Link(base), 4, 5).unwrap();
    assert_eq!(link.state.asked, MakeAsk::CopySource(70));
    link.step(MakeReply::Inode(8)).unwrap();
    assert_eq!((link.state.asked, link.state.linked), (MakeAsk::Unhide, Some(8)));
    link.step(MakeReply::Done).unwrap();
    assert_eq!(link.state.asked, MakeAsk::MakeParents { uid: 0, gid: 0 });
    let there = OverlayCreate::start(&maps, 1, "l", NewEntry::Link(delta), 4, 5).unwrap();
    assert_eq!((there.state.asked, there.state.linked), (MakeAsk::Unhide, Some(3)));
    assert!(matches!(
        OverlayCreate::start(&maps, 1, "l", NewEntry::Link(500), 4, 5),
        Err(FsError::NotFound)
    ));
}

#[test]
fn a_whole_copy_makes_the_file_in_its_directory() {
    let file = stats(70, S_IFREG | 0o640);
    let mut copy = CopyUp::start("/a/f", 70, false).unwrap();
    assert_eq!((copy.asked, copy.wanted()), (CopyAsk::Early(1), "a"));
    copy.step(CopyReply::Found(Some(stats(2, S_IFDIR)))).unwrap();
    assert_eq!((copy.asked, copy.wanted()), (CopyAsk::EarlyName(2), "f"));
    copy.step(CopyReply::Found(None)).unwrap();
    assert_eq!(copy.asked, CopyAsk::StatBase);
    assert!(matches!(copy.step(CopyReply::Found(None)), Err(FsError::NotFound)));
    copy.step(CopyReply::Found(Some(file))).unwrap();
    assert_eq!(copy.asked, CopyAsk::MakeParents { uid: 4, gid: 5 });
    copy.step(CopyReply::Done).unwrap();
    assert_eq!((copy.asked, copy.wanted()), (CopyAsk::Walk(1), "a"));
    copy.step(CopyReply::Found(Some(stats(2, S_IFDIR)))).unwrap();
    let kind = CopyKind::File { mode: S_IFREG | 0o640, size: 12 };
    assert_eq!(copy.asked, CopyAsk::Make { dir: 2, kind, uid: 4, gid: 5 });
    assert_eq!(copy.wanted(), "f");
    copy.step(CopyReply::Inode(9)).unwrap();
    assert_eq!(copy.asked, CopyAsk::RecordOrigin(9));
    copy.step(CopyReply::Done).unwrap();
    assert_eq!(copy.asked, CopyAsk::Finish(9));
    assert!(matches!(CopyUp::start("/", 1, false), Err(FsError::RootOperation)));
}

#[test]
fn what_was_copied_is_used_again() {
    let mut copy = CopyUp::start("/f", 70, false).unwrap();
    assert_eq!(copy.asked, CopyAsk::EarlyName(1));
    copy.step(CopyReply::Found(Some(stats(6, S_IFREG)))).unwrap();
    assert_eq!(copy.asked, CopyAsk::Finish(6));
}

#[test]
fn a_partial_copy_records_its_base() {
    let file = stats(70, S_IFREG | 0o640);
    let mut copy = CopyUp::start("/f", 70, true).unwrap();
    assert_eq!(copy.asked, CopyAsk::BaseAtPath);
    copy.step(CopyReply::Found(Some(file))).unwrap();
    copy.step(CopyReply::Done).unwrap();
    assert_eq!(copy.asked, CopyAsk::FindName(1));
    copy.step(CopyReply::Found(None)).unwrap();
    let kind = CopyKind::File { mode: S_IFREG | 0o640, size: 0 };
    assert_eq!(copy.asked, CopyAsk::Make { dir: 1, kind, uid: 4, gid: 5 });
    copy.step(CopyReply::Inode(9)).unwrap();
    assert_eq!(copy.asked, CopyAsk::SetInode(9));
    copy.step(CopyReply::Done).unwrap();
    assert_eq!(copy.asked, CopyAsk::RecordOrigin(9));
    copy.step(CopyReply::Done).unwrap();
    assert_eq!(copy.asked, CopyAsk::RecordPartial(9));
    copy.step(CopyReply::Done).unwrap();
    assert_eq!(copy.asked, CopyAsk::Finish(9));
}

#[test]
fn only_files_are_copied_in_parts() {
    let mut copy = CopyUp::start("/l", 70, true).unwrap();
    copy.step(CopyReply::Found(None)).unwrap();
    assert_eq!(copy.asked, CopyAsk::StatBase);
    copy.step(CopyReply::Found(Some(stats(70, S_IFLNK | 0o777)))).unwrap();
    assert_eq!((copy.asked, copy.partial), (CopyAsk::EarlyName(1), false));
    copy.step(CopyReply::Found(None)).unwrap();
    copy.step(CopyReply::Found(Some(stats(70, S_IFLNK | 0o777)))).unwrap();
    copy.step(CopyReply::Done).unwrap();
    assert_eq!(
        copy.asked,
        CopyAsk::Make { dir: 1, kind: CopyKind::Symlink, uid: 4, gid: 5 }
    );
}
