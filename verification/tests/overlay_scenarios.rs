use agentfs_core::copy_steps::{CopyAsk, CopyReply, CopyUp};
use agentfs_core::copy_up::{CopyKind, ParentAction, ParentDirs, PARENT_DIR_MODE};
use agentfs_core::error::FsError;
use agentfs_core::lookup::DirEntry;
use agentfs_core::overlay::{delta_step, visible_base_directory};
use agentfs_core::overlay_create::{MakeAsk, MakeReply, NewEntry, OverlayCreate};
use agentfs_core::overlay_list::{overlay_readdir, overlay_readdir_plus};
use agentfs_core::overlay_lookup::{LookupAsk, OverlayLookup};
use agentfs_core::overlay_maps::{InodeInfo, Layer, OverlayMaps};
use agentfs_core::overlay_remove::{OverlayRemove, RemoveAsk, RemoveReply};
use agentfs_core::overlay_rename::{MoveAsk, MoveReply, OverlayRename};
use agentfs_core::path::split_components;
use agentfs_core::stats::{Stats, S_IFDIR, S_IFLNK, S_IFREG};
use agentfs_core::whiteouts::Whiteouts;
use std::collections::{BTreeMap, HashMap};

fn stats(ino: i64, mode: u32) -> Stats {
    Stats {
        ino,
        mode,
        nlink: 1,
        uid: 4,
        gid: 5,
        size: 0,
        atime: 1,
        mtime: 2,
        ctime: 3,
        atime_nsec: 0,
        mtime_nsec: 0,
        ctime_nsec: 0,
        rdev: 0,
    }
}

/// A layer in memory: entries by directory and name, and the contents of inodes.
struct MemoryLayer {
    entries: BTreeMap<(i64, String), i64>,
    inodes: HashMap<i64, (Stats, String)>,
    next: i64,
}

impl MemoryLayer {
    fn new(first: i64) -> MemoryLayer {
        let root = (stats(1, S_IFDIR | 0o755), String::new());
        MemoryLayer { entries: BTreeMap::new(), inodes: HashMap::from([(1, root)]), next: first }
    }

    fn lookup(&self, dir: i64, name: &str) -> Option<Stats> {
        let ino = self.entries.get(&(dir, name.to_string()))?;
        self.inodes.get(ino).map(|inode| inode.0)
    }

    fn names(&self, dir: i64) -> Vec<String> {
        self.entries.keys().filter(|key| key.0 == dir).map(|key| key.1.clone()).collect()
    }

    fn listed(&self, dir: i64) -> Vec<DirEntry> {
        let found = |name: String| {
            let stats = self.lookup(dir, &name).unwrap();
            DirEntry { name, stats }
        };
        self.names(dir).into_iter().map(found).collect()
    }

    fn make(&mut self, dir: i64, name: &str, mode: u32, contents: &str) -> Result<i64, FsError> {
        if self.lookup(dir, name).is_some() {
            return Err(FsError::AlreadyExists);
        }
        let ino = self.next;
        self.next += 1;
        let size = contents.len() as i64;
        self.inodes.insert(ino, (Stats { size, ..stats(ino, mode) }, contents.to_string()));
        self.entries.insert((dir, name.to_string()), ino);
        Ok(ino)
    }

    /// Makes a file with all directories above it.
    fn plant(&mut self, path: &str, contents: &str) -> i64 {
        let parts = split_components(path);
        let mut dir = 1;
        for part in &parts[..parts.len() - 1] {
            dir = match self.lookup(dir, part) {
                Some(found) => found.ino,
                None => self.make(dir, part, S_IFDIR | 0o755, "").unwrap(),
            };
        }
        self.make(dir, &parts[parts.len() - 1], S_IFREG | 0o644, contents).unwrap()
    }

    fn remove(&mut self, dir: i64, name: &str) -> Result<(), FsError> {
        self.entries.remove(&(dir, name.to_string())).map(|_| ()).ok_or(FsError::NotFound)
    }

    fn at(&self, path: &str) -> Option<Stats> {
        let mut found = self.inodes.get(&1).map(|inode| inode.0);
        for part in split_components(path) {
            found = self.lookup(found?.ino, &part);
        }
        found
    }
}

struct Overlay {
    base: MemoryLayer,
    delta: MemoryLayer,
    maps: OverlayMaps,
    whiteouts: Whiteouts,
    origins: HashMap<i64, i64>,
}

impl Overlay {
    fn new(files: &[(&str, &str)]) -> Overlay {
        let mut base = MemoryLayer::new(100);
        for (path, contents) in files {
            base.plant(path, contents);
        }
        Overlay {
            base,
            delta: MemoryLayer::new(2),
            maps: OverlayMaps::new(),
            whiteouts: Whiteouts::new(),
            origins: HashMap::new(),
        }
    }

    /// The same layers, hidden paths and origins, seen by a new process.
    fn remount(&mut self) {
        self.maps = OverlayMaps::new();
    }

    fn lookup(&mut self, parent: i64, name: &str) -> Result<Option<Stats>, FsError> {
        let mut lookup = OverlayLookup::start(&self.maps, &self.whiteouts, parent, name)?;
        loop {
            let found = match lookup.asked {
                LookupAsk::Found(found) => return Ok(found),
                LookupAsk::DeltaStep(dir) | LookupAsk::DeltaName(dir) => {
                    self.delta.lookup(dir, lookup.wanted())
                }
                LookupAsk::BaseStep(dir) | LookupAsk::BaseName(dir) => {
                    self.base.lookup(dir, lookup.wanted())
                }
            };
            lookup.step(&mut self.maps, &self.origins, found);
        }
    }

    fn find(&mut self, path: &str) -> Option<Stats> {
        let mut at = 1;
        let mut found = None;
        for part in split_components(path) {
            found = self.lookup(at, &part).unwrap();
            at = found?.ino;
        }
        found
    }

    fn ino(&mut self, path: &str) -> i64 {
        if path == "/" {
            1
        } else {
            self.find(path).unwrap().ino
        }
    }

    fn info(&self, ino: i64) -> InodeInfo {
        self.maps.get_inode_info(ino).unwrap()
    }

    fn read(&mut self, path: &str) -> String {
        let ino = self.ino(path);
        let info = self.info(ino);
        let layer = match info.layer {
            Layer::Delta => &self.delta,
            Layer::Base => &self.base,
        };
        layer.inodes[&info.underlying_ino].1.clone()
    }

    fn layer_dirs(&self, ino: i64) -> (InodeInfo, Option<i64>, Option<i64>) {
        let info = self.info(ino);
        let (delta, base) = match info.layer {
            Layer::Delta => {
                (Some(info.underlying_ino), self.base.at(&info.path).map(|found| found.ino))
            }
            Layer::Base => (None, Some(info.underlying_ino)),
        };
        (info, delta, base)
    }

    fn names(&mut self, path: &str) -> Vec<String> {
        let ino = self.ino(path);
        let (info, delta, base) = self.layer_dirs(ino);
        let delta = delta.map(|dir| self.delta.names(dir)).unwrap_or_default();
        let base = base.map(|dir| self.base.names(dir)).unwrap_or_default();
        overlay_readdir(&info.path, &self.whiteouts, &delta, &base)
    }

    fn listed(&mut self, path: &str) -> Vec<DirEntry> {
        let ino = self.ino(path);
        let (info, delta, base) = self.layer_dirs(ino);
        let delta = delta.map(|dir| self.delta.listed(dir)).unwrap_or_default();
        let base = base.map(|dir| self.base.listed(dir)).unwrap_or_default();
        overlay_readdir_plus(
            &mut self.maps,
            &self.origins,
            &info.path,
            &self.whiteouts,
            &delta,
            &base,
        )
    }

    fn delta_dir(&self, info: &InodeInfo) -> Option<i64> {
        if info.layer == Layer::Delta {
            return Some(info.underlying_ino);
        }
        let mut at = 1;
        for part in split_components(&info.path) {
            at = delta_step(self.delta.lookup(at, &part))?;
        }
        Some(at)
    }

    fn make_parents(&mut self, path: &str, uid: u32, gid: u32) -> Result<(), FsError> {
        let mut dirs = ParentDirs::new(path, uid, gid);
        while !dirs.is_done() {
            let name = dirs.wanted().to_string();
            let at = dirs.wanted_path();
            self.whiteouts.remove(&at);
            let parent = dirs.delta_ino;
            let delta = self.delta.lookup(parent, &name);
            let base = self.base.lookup(dirs.base_ino, &name);
            if let ParentAction::Make { .. } = dirs.found(delta, base)? {
                let made = self.delta.make(parent, &name, S_IFDIR | PARENT_DIR_MODE, "")?;
                if let Some(origin) = dirs.made(made) {
                    self.origins.insert(made, origin);
                    self.maps.promote_to_delta(&at, made);
                }
            }
        }
        Ok(())
    }

    fn copy_up(&mut self, path: &str, base_ino: i64, partial: bool) -> Result<i64, FsError> {
        let mut copy = CopyUp::start(path, base_ino, partial)?;
        loop {
            let reply = match copy.asked {
                CopyAsk::Finish(ino) => return Ok(ino),
                CopyAsk::Early(dir)
                | CopyAsk::EarlyName(dir)
                | CopyAsk::Walk(dir)
                | CopyAsk::FindName(dir) => CopyReply::Found(self.delta.lookup(dir, copy.wanted())),
                CopyAsk::BaseAtPath => CopyReply::Found(self.base.at(path)),
                CopyAsk::StatBase => {
                    CopyReply::Found(self.base.inodes.get(&base_ino).map(|inode| inode.0))
                }
                CopyAsk::MakeParents { uid, gid } => {
                    self.make_parents(path, uid, gid)?;
                    CopyReply::Done
                }
                CopyAsk::Make { dir, kind, .. } => {
                    let contents = self.base.inodes[&base_ino].1.clone();
                    let (mode, contents) = match kind {
                        CopyKind::Symlink => (S_IFLNK | 0o777, contents.as_str()),
                        CopyKind::Directory { mode } => (S_IFDIR | mode, ""),
                        CopyKind::File { mode, size } => (mode, &contents[..size as usize]),
                    };
                    CopyReply::Inode(self.delta.make(dir, copy.wanted(), mode, contents)?)
                }
                CopyAsk::RecordOrigin(ino) => {
                    self.origins.insert(ino, base_ino);
                    CopyReply::Done
                }
                CopyAsk::SetInode(_) | CopyAsk::RecordPartial(_) => CopyReply::Done,
            };
            copy.step(reply)?;
        }
    }

    fn write(&mut self, path: &str, contents: &str) {
        let ino = self.ino(path);
        let info = self.info(ino);
        let delta_ino = match info.layer {
            Layer::Delta => info.underlying_ino,
            Layer::Base => {
                let copied = self.copy_up(&info.path, info.underlying_ino, false).unwrap();
                self.maps.refresh(ino, Layer::Delta, copied, &info.path);
                copied
            }
        };
        self.delta.inodes.get_mut(&delta_ino).unwrap().1 = contents.to_string();
    }

    fn make(&mut self, parent: i64, name: &str, entry: NewEntry) -> Result<i64, FsError> {
        let mut making = OverlayCreate::start(&self.maps, parent, name, entry, 4, 5)?;
        let mut made = 0;
        loop {
            let reply = match making.state.asked {
                MakeAsk::FindExisting => MakeReply::Found(self.lookup(parent, name)?),
                MakeAsk::CopySource(base_ino) => {
                    let NewEntry::Link(ino) = entry else { panic!("no link") };
                    let path = self.info(ino).path;
                    MakeReply::Inode(self.copy_up(&path, base_ino, false)?)
                }
                MakeAsk::Unhide => {
                    self.whiteouts.remove(&making.path);
                    MakeReply::Done
                }
                MakeAsk::MakeParents { uid, gid } => {
                    self.make_parents(&making.path, uid, gid)?;
                    MakeReply::Done
                }
                MakeAsk::DeltaParent => MakeReply::Dir(self.delta_dir(&making.parent)),
                MakeAsk::Make(dir) => {
                    made = match (entry, making.state.linked) {
                        (NewEntry::Directory, _) => {
                            self.delta.make(dir, name, S_IFDIR | 0o755, "")?
                        }
                        (NewEntry::Link(_), Some(ino)) => {
                            self.delta.entries.insert((dir, name.to_string()), ino);
                            ino
                        }
                        _ => self.delta.make(dir, name, S_IFREG | 0o644, "")?,
                    };
                    MakeReply::Done
                }
                MakeAsk::Finish => break,
            };
            making.step(reply)?;
        }
        Ok(match entry {
            NewEntry::Link(ino) => ino,
            _ => self.maps.get_or_create(Layer::Delta, made, &making.path),
        })
    }

    fn remove(&mut self, parent: i64, name: &str, directory: bool) -> Result<(), FsError> {
        let mut removal = OverlayRemove::start(&self.maps, parent, name, directory)?;
        loop {
            let reply = match removal.asked {
                RemoveAsk::Finish => return Ok(()),
                RemoveAsk::Find | RemoveAsk::LookAgain => {
                    RemoveReply::Found(self.lookup(parent, name)?)
                }
                RemoveAsk::CountEntries(_) => {
                    let path = removal.path.clone();
                    RemoveReply::Entries(self.names(&path).len())
                }
                RemoveAsk::DeltaParent => RemoveReply::Dir(self.delta_dir(&removal.parent)),
                RemoveAsk::FindInDelta(dir) => RemoveReply::Found(self.delta.lookup(dir, name)),
                RemoveAsk::RemoveInDelta(dir) => {
                    RemoveReply::Removed(self.delta.remove(dir, name))
                }
                RemoveAsk::CleanUp(_) => RemoveReply::Done,
                RemoveAsk::Hide => {
                    self.whiteouts.insert(&removal.path);
                    RemoveReply::Done
                }
            };
            removal.step(reply)?;
        }
    }

    fn rename(&mut self, from: (i64, &str), to: (i64, &str)) -> Result<Option<i64>, FsError> {
        let mut rename = OverlayRename::start(&self.maps, from.0, from.1, to.0, to.1)?;
        loop {
            let reply = match rename.state.asked {
                MoveAsk::Finish => return Ok(rename.replaced()),
                MoveAsk::FindSource | MoveAsk::LookAgain => {
                    MoveReply::Found(self.lookup(from.0, from.1)?)
                }
                MoveAsk::FindTarget => MoveReply::Found(self.lookup(to.0, to.1)?),
                MoveAsk::PlaceOf(stats) => {
                    let info = self.maps.get_inode_info(stats.ino);
                    MoveReply::Place(info.map(|info| (info.layer, info.underlying_ino)))
                }
                MoveAsk::BaseShows(_) => {
                    let base = self.base.at(&rename.old_path);
                    MoveReply::Shows(visible_base_directory(
                        &self.whiteouts,
                        &rename.old_path,
                        base,
                    ))
                }
                MoveAsk::Unhide => {
                    self.whiteouts.remove(&rename.new_path);
                    MoveReply::Done
                }
                MoveAsk::CopySource(base_ino) => {
                    MoveReply::Inode(self.copy_up(&rename.old_path, base_ino, false)?)
                }
                MoveAsk::MakeParents => {
                    self.make_parents(&rename.new_path, 0, 0)?;
                    MoveReply::Done
                }
                MoveAsk::OldParent => MoveReply::Dir(self.delta_dir(&rename.old_parent)),
                MoveAsk::NewParent => MoveReply::Dir(self.delta_dir(&rename.new_parent)),
                MoveAsk::MoveEntry { from: dir, to: new_dir } => {
                    let ino = self.delta.entries.remove(&(dir, from.1.to_string())).unwrap();
                    self.delta.entries.insert((new_dir, to.1.to_string()), ino);
                    MoveReply::Done
                }
                MoveAsk::Refresh { ino, delta_ino } => {
                    self.maps.refresh(ino, Layer::Delta, delta_ino, &rename.new_path);
                    MoveReply::Done
                }
                MoveAsk::Hide => {
                    self.whiteouts.insert(&rename.old_path);
                    MoveReply::Done
                }
            };
            rename.step(reply)?;
        }
    }
}

#[test]
fn base_files_are_found_and_not_copied() {
    let mut fs = Overlay::new(&[("/base.txt", "base content")]);
    assert!(fs.find("/base.txt").unwrap().is_file());
    assert_eq!(fs.read("/base.txt"), "base content");
    assert!(fs.delta.entries.is_empty());
    assert!(fs.find("/other.txt").is_none());
}

#[test]
fn new_files_go_to_the_delta() {
    let mut fs = Overlay::new(&[("/base.txt", "base")]);
    let ino = fs.make(1, "new.txt", NewEntry::Other).unwrap();
    assert_eq!(fs.ino("/new.txt"), ino);
    assert_eq!(fs.info(ino).layer, Layer::Delta);
    assert_eq!(fs.base.names(1), vec!["base.txt"]);
    assert!(matches!(fs.make(1, "new.txt", NewEntry::Other), Err(FsError::AlreadyExists)));
    assert!(matches!(fs.make(1, "base.txt", NewEntry::Directory), Err(FsError::AlreadyExists)));
}

#[test]
fn an_unlinked_base_file_stays_away() {
    let mut fs = Overlay::new(&[("/base.txt", "base"), ("/keep.txt", "keep")]);
    fs.remove(1, "base.txt", false).unwrap();
    assert!(fs.find("/base.txt").is_none());
    assert_eq!(fs.names("/"), vec!["keep.txt"]);
    assert_eq!(fs.base.names(1), vec!["base.txt", "keep.txt"]);
    fs.remount();
    assert!(fs.find("/base.txt").is_none());
    assert!(matches!(fs.remove(1, "base.txt", false), Err(FsError::NotFound)));
    fs.make(1, "base.txt", NewEntry::Other).unwrap();
    assert_eq!(fs.read("/base.txt"), "");
}

#[test]
fn writing_copies_up_and_keeps_the_number() {
    let mut fs = Overlay::new(&[("/dir/sub/base.txt", "base content")]);
    let before = fs.ino("/dir/sub/base.txt");
    fs.write("/dir/sub/base.txt", "modified");
    assert_eq!(fs.read("/dir/sub/base.txt"), "modified");
    assert_eq!(fs.ino("/dir/sub/base.txt"), before);
    assert_eq!(fs.base.inodes[&fs.base.at("/dir/sub/base.txt").unwrap().ino].1, "base content");
    assert_eq!(fs.delta.at("/dir/sub/base.txt").unwrap().mode, S_IFREG | 0o644);
    let entries = fs.delta.entries.len();
    fs.write("/dir/sub/base.txt", "again");
    assert_eq!(fs.delta.entries.len(), entries);
}

#[test]
fn base_directories_are_not_moved() {
    let mut fs = Overlay::new(&[("/dir/a.txt", "a"), ("/dir/b.txt", "b")]);
    let refused = |result| matches!(result, Err(FsError::CrossDevice));
    assert!(refused(fs.rename((1, "dir"), (1, "moved"))));
    // A directory that is also in the delta still shows what the base has.
    let dir = fs.ino("/dir");
    fs.make(dir, "new.txt", NewEntry::Other).unwrap();
    assert_eq!(fs.info(dir).layer, Layer::Delta);
    assert!(refused(fs.rename((1, "dir"), (1, "moved"))));
    assert_eq!(fs.names("/dir"), vec!["a.txt", "b.txt", "new.txt"]);
    // One that only the delta has can be moved.
    let own = fs.make(1, "own", NewEntry::Directory).unwrap();
    fs.make(own, "file", NewEntry::Other).unwrap();
    assert_eq!(fs.rename((1, "own"), (1, "moved")).unwrap(), None);
    assert_eq!(fs.names("/"), vec!["dir", "moved"]);
    assert_eq!(fs.names("/moved"), vec!["file"]);
}

#[test]
fn a_renamed_base_file_leaves_its_name() {
    let mut fs = Overlay::new(&[("/src/file.txt", "text"), ("/dst/other.txt", "other")]);
    let number = fs.ino("/src/file.txt");
    let (src, dst) = (fs.ino("/src"), fs.ino("/dst"));
    assert_eq!(fs.rename((src, "file.txt"), (dst, "moved.txt")).unwrap(), None);
    assert!(fs.find("/src/file.txt").is_none());
    assert_eq!(fs.read("/dst/moved.txt"), "text");
    assert_eq!(fs.ino("/dst/moved.txt"), number);
    assert_eq!(fs.names("/src"), Vec::<String>::new());
    assert_eq!(fs.names("/dst"), vec!["moved.txt", "other.txt"]);
    let other = fs.ino("/dst/other.txt");
    assert_eq!(fs.rename((dst, "moved.txt"), (dst, "other.txt")).unwrap(), Some(other));
    assert_eq!(fs.read("/dst/other.txt"), "text");
    fs.remount();
    assert!(fs.find("/src/file.txt").is_none());
    assert_eq!(fs.read("/dst/other.txt"), "text");
}

#[test]
fn names_made_below_base_directories_are_listed() {
    let mut fs = Overlay::new(&[("/a/b/c/base.txt", "base")]);
    let dir = fs.ino("/a/b/c");
    fs.make(dir, "new.txt", NewEntry::Other).unwrap();
    let made = fs.make(dir, "sub", NewEntry::Directory).unwrap();
    assert_eq!(fs.names("/a/b/c"), vec!["base.txt", "new.txt", "sub"]);
    assert_eq!(fs.ino("/a/b/c/sub"), made);
    assert_eq!(fs.ino("/a/b/c"), dir);
    let listed = fs.listed("/a/b/c");
    assert_eq!(listed.len(), 3);
    for entry in listed {
        assert_eq!(fs.ino(&format!("/a/b/c/{}", entry.name)), entry.stats.ino);
    }
    fs.remove(dir, "new.txt", false).unwrap();
    assert!(!fs.whiteouts.contains("/a/b/c/new.txt"));
    assert_eq!(fs.names("/a/b/c"), vec!["base.txt", "sub"]);
}

#[test]
fn layers_do_not_shadow_each_other_wrongly() {
    let mut fs = Overlay::new(&[("/pkg/src/lib.rs", "lib"), ("/src/main.rs", "main")]);
    let src = fs.ino("/src");
    fs.make(src, "extra.rs", NewEntry::Other).unwrap();
    // The delta now has `/src`, and `/pkg/src` is another directory.
    assert_eq!(fs.names("/pkg/src"), vec!["lib.rs"]);
    assert_eq!(fs.read("/pkg/src/lib.rs"), "lib");
    assert!(fs.find("/pkg/src/extra.rs").is_none());
    assert_ne!(fs.ino("/pkg/src"), fs.ino("/src"));
}

#[test]
fn removals_below_promoted_directories_hide_the_base() {
    let mut fs = Overlay::new(&[("/d/e/base.txt", "base"), ("/d/old/x", "x")]);
    let dir = fs.ino("/d/e");
    fs.make(dir, "new.txt", NewEntry::Other).unwrap();
    fs.remove(dir, "base.txt", false).unwrap();
    assert!(fs.find("/d/e/base.txt").is_none());
    assert!(fs.whiteouts.contains("/d/e/base.txt"));
    let d = fs.ino("/d");
    assert!(matches!(fs.remove(d, "old", true), Err(FsError::NotEmpty)));
    let old = fs.ino("/d/old");
    fs.remove(old, "x", false).unwrap();
    fs.remove(d, "old", true).unwrap();
    assert!(fs.find("/d/old").is_none());
    assert_eq!(fs.names("/d"), vec!["e"]);
    fs.remount();
    assert!(fs.find("/d/e/base.txt").is_none());
    assert!(fs.find("/d/old/x").is_none());
}

#[test]
fn a_link_survives_its_source() {
    let mut fs = Overlay::new(&[("/file.txt", "text")]);
    let number = fs.ino("/file.txt");
    assert_eq!(fs.make(1, "link.txt", NewEntry::Link(number)).unwrap(), number);
    fs.remount();
    fs.remove(1, "file.txt", false).unwrap();
    assert!(fs.find("/file.txt").is_none());
    assert_eq!(fs.read("/link.txt"), "text");
    assert_eq!(fs.names("/"), vec!["link.txt"]);
}

#[test]
fn symbolic_links_are_copied_as_links() {
    let mut fs = Overlay::new(&[]);
    fs.base.make(1, "link", S_IFLNK | 0o777, "target").unwrap();
    let number = fs.ino("/link");
    assert_eq!(fs.rename((1, "link"), (1, "renamed")).unwrap(), None);
    assert!(fs.find("/renamed").unwrap().is_symlink());
    assert_eq!(fs.ino("/renamed"), number);
    assert_eq!(fs.read("/renamed"), "target");
    assert!(fs.find("/link").is_none());
}

#[test]
fn a_partial_copy_has_no_contents_of_its_own() {
    let mut fs = Overlay::new(&[("/big", "contents")]);
    let number = fs.ino("/big");
    let info = fs.info(number);
    let ino = fs.copy_up("/big", info.underlying_ino, true).unwrap();
    assert_eq!(fs.delta.inodes[&ino].1, "");
    assert_eq!(fs.origins.get(&ino), Some(&info.underlying_ino));
    assert_eq!(fs.copy_up("/big", info.underlying_ino, true).unwrap(), ino);
    assert_eq!(fs.copy_up("/big", info.underlying_ino, false).unwrap(), ino);
}
