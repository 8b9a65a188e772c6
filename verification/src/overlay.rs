//! The overlay: a base layer that is only read under a delta layer that takes every
//! change.
use crate::error::FsError;
use crate::flags::{OpenBits, is_write_open, writes};
use crate::overlay_list::shown_names;
use crate::overlay_maps::{InfoModel, InodeInfo, Layer, child_path};
use crate::stats::{S_IFDIR, S_IFREG, Stats, mode_is};
use crate::whiteouts::Whiteouts;
use vstd::prelude::*;

verus! {

/// Size from which the automatic policy copies base files up in parts.
pub const DEFAULT_PARTIAL_ORIGIN_THRESHOLD_BYTES: u64 = 1048576;

/// When regular base files are copied up in parts.
#[derive(Debug, Clone, Copy, PartialEq, Eq, Structural)]
pub enum PartialOriginMode {
    /// Files are always copied whole.
    Off,
    /// Regular files are copied in parts.
    On,
    /// Regular files of at least the threshold are copied in parts.
    Auto,
}

/// The policy of copying base files up in parts.
#[derive(Debug, Clone, Copy, PartialEq, Eq, Structural)]
pub struct PartialOriginPolicy {
    pub mode: PartialOriginMode,
    pub threshold_bytes: u64,
}

impl Default for PartialOriginPolicy {
    fn default() -> (policy: PartialOriginPolicy)
        ensures
            policy.mode == PartialOriginMode::Off,
            policy.threshold_bytes == DEFAULT_PARTIAL_ORIGIN_THRESHOLD_BYTES,
    {
        PartialOriginPolicy {
            mode: PartialOriginMode::Off,
            threshold_bytes: DEFAULT_PARTIAL_ORIGIN_THRESHOLD_BYTES,
        }
    }
}

impl PartialOriginPolicy {
    /// A policy with the default threshold.
    pub fn new(mode: PartialOriginMode) -> (policy: PartialOriginPolicy)
        ensures
            policy.mode == mode,
            policy.threshold_bytes == DEFAULT_PARTIAL_ORIGIN_THRESHOLD_BYTES,
    {
        PartialOriginPolicy { mode, threshold_bytes: DEFAULT_PARTIAL_ORIGIN_THRESHOLD_BYTES }
    }

    /// The policy with another threshold.
    pub fn with_threshold_bytes(self, threshold_bytes: u64) -> (policy: PartialOriginPolicy)
        ensures
            policy.mode == self.mode,
            policy.threshold_bytes == threshold_bytes,
    {
        let mut policy = self;
        policy.threshold_bytes = threshold_bytes;
        policy
    }

    /// Whether a file may be copied up in parts.
    pub open spec fn permits_spec(self, stats: Stats) -> bool {
        mode_is(stats.mode, S_IFREG) && match self.mode {
            PartialOriginMode::Off => false,
            PartialOriginMode::On => true,
            PartialOriginMode::Auto => stats.size >= 0 && stats.size >= self.threshold_bytes,
        }
    }

    /// Whether a file may be copied up in parts.
    pub fn permits(&self, stats: &Stats) -> (yes: bool)
        ensures
            yes == self.permits_spec(*stats),
    {
        if !stats.is_file() {
            return false;
        }
        match self.mode {
            PartialOriginMode::Off => false,
            PartialOriginMode::On => true,
            PartialOriginMode::Auto => stats.size >= 0 && stats.size as u64
                >= self.threshold_bytes,
        }
    }
}

/// Whether the kernel may rely on what it cached of an inode.
#[derive(Debug, Clone, Copy, PartialEq, Eq, Structural)]
pub enum KernelCachePolicy {
    /// Only this filesystem changes it.
    Stable,
    /// The file underneath may change on its own.
    ExternalDrift,
}

/// Whether an overlay inode stands for a base file that is hidden.
pub open spec fn is_hidden_base(info: InfoModel, hidden: Set<Seq<char>>) -> bool {
    info.layer == Layer::Base && crate::whiteouts::hides(hidden, info.path)
}

/// Whether an overlay inode stands for a base file that is hidden.
pub fn hidden_base(info: &InodeInfo, whiteouts: &Whiteouts) -> (yes: bool)
    ensures
        yes == is_hidden_base(info@, whiteouts@),
{
    info.layer == Layer::Base && whiteouts.is_whiteout(info.path.as_str())
}

/// What the kernel may rely on: files of the visible base can change underneath.
pub fn kernel_cache_policy(info: Option<&InodeInfo>, whiteouts: &Whiteouts) -> (policy:
    KernelCachePolicy)
    ensures
        policy == match info {
            Some(found) => if found@.layer == Layer::Base && !is_hidden_base(
                found@,
                whiteouts@,
            ) {
                KernelCachePolicy::ExternalDrift
            } else {
                KernelCachePolicy::Stable
            },
            None => KernelCachePolicy::Stable,
        },
{
    match info {
        Some(found) => if found.layer == Layer::Base && !hidden_base(found, whiteouts) {
            KernelCachePolicy::ExternalDrift
        } else {
            KernelCachePolicy::Stable
        },
        None => KernelCachePolicy::Stable,
    }
}

/// Where the answer to a request on an inode comes from.
#[derive(Debug, Clone, Copy, PartialEq, Eq, Structural)]
pub enum ReadFrom {
    /// There is no such inode, or its base file is hidden.
    Nowhere,
    Delta(i64),
    Base(i64),
}

/// Where attributes and link targets of an inode are read.
pub fn read_from(info: Option<&InodeInfo>, whiteouts: &Whiteouts) -> (place: ReadFrom)
    ensures
        place == match info {
            None => ReadFrom::Nowhere,
            Some(found) => if is_hidden_base(found@, whiteouts@) {
                ReadFrom::Nowhere
            } else if found@.layer == Layer::Delta {
                ReadFrom::Delta(found@.underlying_ino)
            } else {
                ReadFrom::Base(found@.underlying_ino)
            },
        },
{
    match info {
        None => ReadFrom::Nowhere,
        Some(found) => if hidden_base(found, whiteouts) {
            ReadFrom::Nowhere
        } else {
            match found.layer {
                Layer::Delta => ReadFrom::Delta(found.underlying_ino),
                Layer::Base => ReadFrom::Base(found.underlying_ino),
            }
        },
    }
}

/// How an inode becomes one of the delta before it is changed.
#[derive(Debug, Clone, Copy, PartialEq, Eq, Structural)]
pub enum ChangeRoute {
    /// It is one already.
    Delta(i64),
    /// It is copied up in parts.
    PartialCopyUp,
    /// It is copied up whole.
    CopyUp,
}

/// How an inode whose attributes change becomes one of the delta. `base` are the
/// attributes of the base inode.
pub fn attr_route(
    info: Option<&InodeInfo>,
    whiteouts: &Whiteouts,
    policy: &PartialOriginPolicy,
    base: Option<Stats>,
) -> (result: Result<ChangeRoute, FsError>)
    ensures
        result == match info {
            None => Err::<ChangeRoute, FsError>(FsError::NotFound),
            Some(found) => if is_hidden_base(found@, whiteouts@) {
                Err(FsError::NotFound)
            } else if found@.layer == Layer::Delta {
                Ok(ChangeRoute::Delta(found@.underlying_ino))
            } else if base is None {
                Err(FsError::NotFound)
            } else if policy.permits_spec(base->0) {
                Ok(ChangeRoute::PartialCopyUp)
            } else {
                Ok(ChangeRoute::CopyUp)
            },
        },
{
    match info {
        None => Err(FsError::NotFound),
        Some(found) => {
            if hidden_base(found, whiteouts) {
                return Err(FsError::NotFound);
            }
            if found.layer == Layer::Delta {
                return Ok(ChangeRoute::Delta(found.underlying_ino));
            }
            match base {
                None => Err(FsError::NotFound),
                Some(stats) => if policy.permits(&stats) {
                    Ok(ChangeRoute::PartialCopyUp)
                } else {
                    Ok(ChangeRoute::CopyUp)
                },
            }
        },
    }
}

/// How a file is opened.
#[derive(Debug, Clone, Copy, PartialEq, Eq, Structural)]
pub enum OpenRoute {
    /// The delta file, which may have a base file underneath.
    Delta(i64),
    /// The base file, for reading.
    Base(i64),
    /// The delta file after a copy-up in parts.
    PartialCopyUp,
    /// The delta file after a whole copy-up.
    CopyUp,
}

/// How the file behind an overlay inode is opened.
pub open spec fn opened(
    info: InfoModel,
    hidden: Set<Seq<char>>,
    policy: PartialOriginPolicy,
    flags: i32,
    bits: OpenBits,
    base: Option<Stats>,
) -> Result<OpenRoute, FsError> {
    if is_hidden_base(info, hidden) {
        Err(FsError::NotFound)
    } else if info.layer == Layer::Delta {
        Ok(OpenRoute::Delta(info.underlying_ino))
    } else if base is None {
        Err(FsError::NotFound)
    } else if !writes(flags, bits) {
        Ok(OpenRoute::Base((base->0).ino))
    } else if policy.permits_spec(base->0) {
        Ok(OpenRoute::PartialCopyUp)
    } else {
        Ok(OpenRoute::CopyUp)
    }
}

/// How a file is opened. `base` are the attributes that the path has in the base now.
/// Only a writer copies a base file up.
pub fn open_route(
    info: Option<&InodeInfo>,
    whiteouts: &Whiteouts,
    policy: &PartialOriginPolicy,
    flags: i32,
    bits: &OpenBits,
    base: Option<Stats>,
) -> (result: Result<OpenRoute, FsError>)
    ensures
        result == match info {
            None => Err::<OpenRoute, FsError>(FsError::NotFound),
            Some(found) => opened(found@, whiteouts@, *policy, flags, *bits, base),
        },
{
    match info {
        None => Err(FsError::NotFound),
        Some(found) => {
            if hidden_base(found, whiteouts) {
                return Err(FsError::NotFound);
            }
            if found.layer == Layer::Delta {
                return Ok(OpenRoute::Delta(found.underlying_ino));
            }
            match base {
                None => Err(FsError::NotFound),
                Some(stats) => if !is_write_open(flags, bits) {
                    Ok(OpenRoute::Base(stats.ino))
                } else if policy.permits(&stats) {
                    Ok(OpenRoute::PartialCopyUp)
                } else {
                    Ok(OpenRoute::CopyUp)
                },
            }
        },
    }
}

/// Opening a file only to read never copies it into the delta.
pub proof fn reading_never_copies_up(
    info: InfoModel,
    hidden: Set<Seq<char>>,
    policy: PartialOriginPolicy,
    flags: i32,
    bits: OpenBits,
    base: Option<Stats>,
)
    requires
        !writes(flags, bits),
    ensures
        opened(info, hidden, policy, flags, bits, base) matches Ok(route) ==> route is Delta
            || route is Base,
{
}

/// Opening a file to change it never leads to the base: a writer gets the delta file, after a
/// copy-up where the file was in the base alone.
pub proof fn writing_never_reaches_the_base(
    info: InfoModel,
    hidden: Set<Seq<char>>,
    policy: PartialOriginPolicy,
    flags: i32,
    bits: OpenBits,
    base: Option<Stats>,
)
    requires
        writes(flags, bits),
    ensures
        opened(info, hidden, policy, flags, bits, base) matches Ok(route) ==> route !is Base && (
        route is Delta <==> info.layer == Layer::Delta),
{
}

/// The attributes on which the kernel may keep the pages of a file over an open. Files
/// that are opened to be changed and files that are not regular get none. `stats` are the
/// attributes of the file in its layer, and `keeps_delta` says whether delta files may
/// keep their pages.
pub fn keep_cache_for_read_open(
    info: Option<&InodeInfo>,
    flags: i32,
    bits: &OpenBits,
    keeps_delta: bool,
    stats: Option<Stats>,
) -> (result: Result<Option<Stats>, FsError>)
    ensures
        result == if writes(flags, *bits) {
            Ok::<Option<Stats>, FsError>(None)
        } else {
            match info {
                None => Err(FsError::NotFound),
                Some(found) => if found@.layer == Layer::Delta && !keeps_delta {
                    Ok(None)
                } else if stats is Some && mode_is((stats->0).mode, S_IFREG) {
                    Ok(stats)
                } else {
                    Ok(None)
                },
            }
        },
{
    if is_write_open(flags, bits) {
        return Ok(None);
    }
    match info {
        None => Err(FsError::NotFound),
        Some(found) => {
            if found.layer == Layer::Delta && !keeps_delta {
                return Ok(None);
            }
            match stats {
                Some(found_stats) => if found_stats.is_file() {
                    Ok(Some(found_stats))
                } else {
                    Ok(None)
                },
                None => Ok(None),
            }
        },
    }
}

/// Whether the kernel may keep the pages of a database file over an open, and the
/// attributes on which.
pub fn keep_cache_for_delta_open(
    flags: i32,
    bits: &OpenBits,
    keeps_delta: bool,
    stats: Option<Stats>,
) -> (grant: Option<Stats>)
    ensures
        grant == if writes(flags, *bits) || !keeps_delta {
            None
        } else {
            match stats {
                Some(found) => if mode_is(found.mode, S_IFREG) {
                    Some(found)
                } else {
                    None
                },
                None => None,
            }
        },
{
    if is_write_open(flags, bits) || !keeps_delta {
        return None;
    }
    match stats {
        Some(found) => if found.is_file() {
            Some(found)
        } else {
            None
        },
        None => None,
    }
}

/// Refuses to unlink what is missing or a directory.
pub fn check_overlay_unlink(found: Option<Stats>) -> (result: Result<(), FsError>)
    ensures
        result == match found {
            None => Err::<(), FsError>(FsError::NotFound),
            Some(stats) => if mode_is(stats.mode, S_IFDIR) {
                Err(FsError::IsADirectory)
            } else {
                Ok(())
            },
        },
{
    match found {
        None => Err(FsError::NotFound),
        Some(stats) => if stats.is_directory() {
            Err(FsError::IsADirectory)
        } else {
            Ok(())
        },
    }
}

/// Refuses to remove what is missing, no directory, or not empty in the overlay.
pub fn check_overlay_rmdir(found: Option<Stats>, entries: usize) -> (result: Result<(), FsError>)
    ensures
        result == match found {
            None => Err::<(), FsError>(FsError::NotFound),
            Some(stats) => if !mode_is(stats.mode, S_IFDIR) {
                Err(FsError::NotADirectory)
            } else if entries > 0 {
                Err(FsError::NotEmpty)
            } else {
                Ok(())
            },
        },
{
    match found {
        None => Err(FsError::NotFound),
        Some(stats) => if !stats.is_directory() {
            Err(FsError::NotADirectory)
        } else if entries > 0 {
            Err(FsError::NotEmpty)
        } else {
            Ok(())
        },
    }
}

/// Takes the outcome of a removal in the delta, where the entry may be missing.
pub fn removed_from_delta(outcome: Result<(), FsError>) -> (result: Result<(), FsError>)
    ensures
        result == if outcome == Err::<(), FsError>(FsError::NotFound) {
            Ok::<(), FsError>(())
        } else {
            outcome
        },
{
    match outcome {
        Err(FsError::NotFound) => Ok(()),
        other => other,
    }
}

/// Refuses to rename what is missing, and a directory that the base still shows: only
/// the directory itself would be copied up, not what is in it.
pub fn check_overlay_rename(source: Option<Stats>, visible_base_dir: bool) -> (result: Result<
    Stats,
    FsError,
>)
    ensures
        result == match source {
            None => Err::<Stats, FsError>(FsError::NotFound),
            Some(stats) => if mode_is(stats.mode, S_IFDIR) && visible_base_dir {
                Err(FsError::CrossDevice)
            } else {
                Ok(stats)
            },
        },
{
    match source {
        None => Err(FsError::NotFound),
        Some(stats) => if stats.is_directory() && visible_base_dir {
            Err(FsError::CrossDevice)
        } else {
            Ok(stats)
        },
    }
}

/// Whether a path shows a directory of the base: it is not hidden and the base has a
/// directory there.
pub fn visible_base_directory(whiteouts: &Whiteouts, path: &str, base: Option<Stats>) -> (yes: bool)
    ensures
        yes == (!crate::whiteouts::hides(whiteouts@, path@) && base is Some && mode_is(
            (base->0).mode,
            S_IFDIR,
        )),
{
    if whiteouts.is_whiteout(path) {
        return false;
    }
    match base {
        Some(stats) => stats.is_directory(),
        None => false,
    }
}

/// What both layers have at each path, and which paths are hidden.
#[verifier::ext_equal]
pub struct Layers {
    pub delta: Map<Seq<char>, Stats>,
    pub base: Map<Seq<char>, Stats>,
    pub hidden: Set<Seq<char>>,
}

impl Layers {
    /// What the overlay shows at a path: nothing if it is hidden, else what the delta
    /// has, else what the base has.
    pub open spec fn shown(self, path: Seq<char>) -> Option<Stats> {
        if crate::whiteouts::hides(self.hidden, path) {
            None
        } else if self.delta.contains_key(path) {
            Some(self.delta[path])
        } else if self.base.contains_key(path) {
            Some(self.base[path])
        } else {
            None
        }
    }

    /// The layers after an unlink: the delta entry goes, and what the base then still
    /// shows is hidden.
    pub open spec fn unlinked(self, path: Seq<char>) -> Layers {
        let cut = Layers { delta: self.delta.remove(path), ..self };
        if cut.shown(path) is Some {
            Layers { hidden: cut.hidden.insert(path), ..cut }
        } else {
            cut
        }
    }

    /// The layers after something was made at a path: it is shown again and in the delta.
    pub open spec fn made(self, path: Seq<char>, stats: Stats) -> Layers {
        Layers {
            delta: self.delta.insert(path, stats),
            hidden: self.hidden.remove(path),
            ..self
        }
    }
}

/// Whether the path still shows in the overlay after the delta lost it, so that it has
/// to be hidden.
pub fn needs_whiteout(still_shown: Option<Stats>) -> (yes: bool)
    ensures
        yes == (still_shown is Some),
{
    still_shown.is_some()
}

/// After an unlink the path shows nothing, whatever the base has there; the base itself
/// is left alone.
pub proof fn unlinked_paths_are_gone(layers: Layers, path: Seq<char>)
    requires
        crate::path::components(path).len() > 0,
        path == crate::path::rendered(crate::path::components(path)),
    ensures
        layers.unlinked(path).shown(path) is None,
        layers.unlinked(path).base == layers.base,
{
    let parts = crate::path::components(path);
    crate::path::components_are_plain(path);
    crate::whiteouts::a_hidden_path_hides_what_is_below(layers.hidden, parts, Seq::empty());
    assert(parts + Seq::<Seq<char>>::empty() =~= parts);
}

/// A directory lists exactly the names that a lookup finds.
pub proof fn listings_show_what_lookups_find(
    layers: Layers,
    dir: Seq<Seq<char>>,
    delta_names: Seq<Seq<char>>,
    base_names: Seq<Seq<char>>,
    name: Seq<char>,
)
    requires
        crate::path::all_plain(dir),
        forall|path: Seq<char>| #[trigger]
            layers.hidden.contains(path) ==> crate::path::components(path).len() > 0 && path
                == crate::path::rendered(crate::path::components(path)),
        delta_names.contains(name) <==> layers.delta.contains_key(
            child_path(crate::path::rendered(dir), name),
        ),
        base_names.contains(name) <==> layers.base.contains_key(
            child_path(crate::path::rendered(dir), name),
        ),
    ensures
        shown_names(layers.hidden, crate::path::rendered(dir), delta_names).union(
            shown_names(layers.hidden, crate::path::rendered(dir), base_names),
        ).contains(name) <==> layers.shown(child_path(crate::path::rendered(dir), name)) is Some,
{
    let at = crate::path::rendered(dir);
    if crate::whiteouts::hidden_names(layers.hidden, at).contains(name) {
        crate::whiteouts::hidden_names_are_hidden_paths(layers.hidden, dir, name);
    }
}

/// The directory to go on from in a walk of the delta: what is no directory ends it.
pub fn delta_step(found: Option<Stats>) -> (next: Option<i64>)
    ensures
        next == match found {
            Some(stats) => if mode_is(stats.mode, S_IFDIR) {
                Some(stats.ino)
            } else {
                None
            },
            None => None,
        },
{
    match found {
        Some(stats) => if stats.is_directory() {
            Some(stats.ino)
        } else {
            None
        },
        None => None,
    }
}

/// An unlink of a file that only the delta has hides nothing, so that a file made there
/// again is shown.
pub proof fn unlinking_a_delta_file_hides_nothing(layers: Layers, path: Seq<char>)
    requires
        !layers.base.contains_key(path),
    ensures
        layers.unlinked(path).hidden == layers.hidden,
{
}

/// What was made at a path is shown there, unless a directory above it is hidden.
pub proof fn what_was_made_is_shown(layers: Layers, path: Seq<char>, stats: Stats)
    requires
        !crate::whiteouts::hides(layers.hidden.remove(path), path),
    ensures
        layers.made(path, stats).shown(path) == Some(stats),
        layers.made(path, stats).base == layers.base,
{
}

} // verus!
