//! What the overlay shows and how it copies, in terms of what the two layers hold.
use crate::error::FsError;
use crate::flags::{OpenBits, is_write_open};
use crate::lookup::DirEntry;
use crate::overlay::{
    ChangeRoute, KernelCachePolicy, OpenRoute, PartialOriginMode, PartialOriginPolicy, ReadFrom,
    attr_route, check_overlay_rename, check_overlay_rmdir, check_overlay_unlink, delta_step,
    hidden_base, keep_cache_for_delta_open, keep_cache_for_read_open, kernel_cache_policy,
    needs_whiteout, open_route, read_from, removed_from_delta, visible_base_directory,
};
use crate::overlay_list::{
    entry_models, is_last_named, is_named, overlay_readdir, overlay_readdir_plus,
};
use crate::overlay_maps::{InodeInfo, Layer, OverlayMaps, join_path};
use crate::path::components;
use crate::sql::{SqlModel, SqlStatement, models};
use crate::stats::Stats;
use crate::text::strings;
use crate::whiteouts::{
    Whiteouts, directory_of, parent_path_for_whiteout, unhide_statement, whiteout_statement,
};
use std::collections::HashMap;
use vstd::prelude::*;

verus! {

/// The path that the first components of a path lead to.
pub open spec fn ancestor(path: Seq<char>, count: int) -> Seq<char>
    decreases count,
{
    if count <= 0 {
        Seq::empty()
    } else {
        ancestor(path, count - 1) + seq!['/'] + components(path)[count - 1]
    }
}

proof fn lemma_ancestor(path: Seq<char>, count: int)
    requires
        0 <= count <= components(path).len(),
    ensures
        ancestor(path, count) == crate::path::slashed(components(path).take(count)),
    decreases count,
{
    let all = components(path);
    if count > 0 {
        lemma_ancestor(path, count - 1);
        assert(all.take(count).drop_last() =~= all.take(count - 1));
        assert(all.take(count).last() == all[count - 1]);
    } else {
        assert(crate::path::slashed(all.take(0)) =~= Seq::<char>::empty());
    }
}

/// A path is hidden exactly if it or a directory above it is in the list of hidden paths.
pub proof fn a_path_is_hidden_with_a_directory_above_it(
    whiteouts: Whiteouts,
    path: &str,
    hidden: bool,
)
    requires
        call_ensures(Whiteouts::is_whiteout, (&whiteouts, path), hidden),
    ensures
        hidden <==> exists|i: int, count: int|
            #![trigger whiteouts.paths@[i], ancestor(path@, count)]
            0 <= i < whiteouts.paths@.len() && 1 <= count <= components(path@).len()
                && whiteouts.paths@[i]@ == ancestor(path@, count),
{
    let all = components(path@);
    let texts = strings(whiteouts.paths@);
    if hidden {
        let count = choose|count: int|
            0 < count <= all.len() && whiteouts@.contains(
                crate::path::slashed(#[trigger] all.take(count)),
            );
        lemma_ancestor(path@, count);
        let i = texts.index_of(ancestor(path@, count));
        assert(texts.contains(ancestor(path@, count)));
        assert(texts[i] == whiteouts.paths@[i]@);
    }
    if exists|i: int, count: int|
        #![trigger whiteouts.paths@[i], ancestor(path@, count)]
        0 <= i < whiteouts.paths@.len() && 1 <= count <= all.len() && whiteouts.paths@[i]@
            == ancestor(path@, count) {
        let (i, count) = choose|i: int, count: int|
            #![trigger whiteouts.paths@[i], ancestor(path@, count)]
            0 <= i < whiteouts.paths@.len() && 1 <= count <= all.len() && whiteouts.paths@[i]@
                == ancestor(path@, count);
        lemma_ancestor(path@, count);
        assert(texts[i] == whiteouts.paths@[i]@);
        assert(texts.contains(ancestor(path@, count)));
        assert(whiteouts@.contains(crate::path::slashed(all.take(count))));
    }
}

/// A path that is hidden is hidden from then on, and one that is shown again is not hidden by
/// itself any more. No other path of the list comes or goes.
pub proof fn hiding_and_showing_change_one_path(
    whiteouts: &mut Whiteouts,
    shown: &mut Whiteouts,
    path: &str,
    other: Seq<char>,
)
    requires
        call_ensures(Whiteouts::insert, (whiteouts, path), ()),
        call_ensures(Whiteouts::remove, (shown, path), ()),
    ensures
        strings(final(whiteouts).paths@).contains(path@),
        !strings(final(shown).paths@).contains(path@),
        other != path@ ==> {
            let was = strings(old(whiteouts).paths@).contains(other);
            strings(final(whiteouts).paths@).contains(other) == was
        },
        other != path@ ==> {
            let was = strings(old(shown).paths@).contains(other);
            strings(final(shown).paths@).contains(other) == was
        },
{
    assert(final(whiteouts)@.contains(path@));
    assert(!final(shown)@.contains(path@));
    assert(final(whiteouts)@.contains(other) == strings(final(whiteouts).paths@).contains(other));
    assert(old(whiteouts)@.contains(other) == strings(old(whiteouts).paths@).contains(other));
    assert(final(shown)@.contains(other) == strings(final(shown).paths@).contains(other));
    assert(old(shown)@.contains(other) == strings(old(shown).paths@).contains(other));
}

/// The path of a name in a directory: the directory, a slash unless it is the root, and the name.
pub proof fn a_slash_joins_a_name_to_its_directory(dir: &str, name: &str, path: String)
    requires
        call_ensures(join_path, (dir, name), path),
    ensures
        dir@ == seq!['/'] ==> path@ == seq!['/'] + name@,
        dir@ != seq!['/'] ==> path@ == dir@ + seq!['/'] + name@,
{
}

/// Whether a listing has an entry of this name.
pub open spec fn lists(entries: Seq<DirEntry>, name: Seq<char>) -> bool {
    exists|i: int| 0 <= i < entries.len() && (#[trigger] entries[i]).name@ == name
}

/// A listing with attributes shows exactly the names that a layer lists and that are not hidden,
/// neither by a hidden path at or above them nor by a hidden name of the directory.
pub proof fn a_listing_shows_what_is_not_hidden(
    maps: &mut OverlayMaps,
    origins: HashMap<i64, i64>,
    dir: &str,
    whiteouts: Whiteouts,
    delta: Vec<DirEntry>,
    base: Vec<DirEntry>,
    entries: Vec<DirEntry>,
    hidden_names: Vec<String>,
    name: Seq<char>,
    path: &str,
    hidden: bool,
)
    requires
        call_ensures(
            overlay_readdir_plus,
            (maps, &origins, dir, &whiteouts, &delta, &base),
            entries,
        ),
        call_ensures(Whiteouts::child_whiteouts, (&whiteouts, dir), hidden_names),
        call_ensures(Whiteouts::is_whiteout, (&whiteouts, path), hidden),
        path@ == (if dir@ == seq!['/'] {
            seq!['/'] + name
        } else {
            dir@ + seq!['/'] + name
        }),
    ensures
        lists(entries@, name) <==> {
            &&& !hidden
            &&& !strings(hidden_names@).contains(name)
            &&& lists(delta@, name) || lists(base@, name)
        },
{
    lemma_lists(entries@, name);
    lemma_lists(delta@, name);
    lemma_lists(base@, name);
    assert(strings(hidden_names@).to_set().contains(name) == strings(hidden_names@).contains(name));
}

proof fn lemma_lists(entries: Seq<DirEntry>, name: Seq<char>)
    ensures
        lists(entries, name) == is_named(entry_models(entries), name),
{
    let all = entry_models(entries);
    if lists(entries, name) {
        let i = choose|i: int| 0 <= i < entries.len() && (#[trigger] entries[i]).name@ == name;
        assert(all[i].0 == name);
    }
    if is_named(all, name) {
        let i = choose|i: int| 0 <= i < all.len() && (#[trigger] all[i]).0 == name;
        assert(entries[i].name@ == name);
    }
}

/// A listed entry that the delta has carries the attributes of the delta entry, whatever the base
/// has under that name: everything but the inode number, which is one of the overlay. A delta
/// inode that was not copied up keeps the number that it had. One that was copied up keeps the
/// number that the base inode had at this path.
pub proof fn a_listed_entry_is_the_one_of_the_delta(
    maps: &mut OverlayMaps,
    origins: HashMap<i64, i64>,
    dir: &str,
    whiteouts: Whiteouts,
    delta: Vec<DirEntry>,
    base: Vec<DirEntry>,
    entries: Vec<DirEntry>,
    i: int,
    at: int,
)
    requires
        call_ensures(
            overlay_readdir_plus,
            (maps, &origins, dir, &whiteouts, &delta, &base),
            entries,
        ),
        0 <= i < entries@.len(),
        0 <= at < delta@.len(),
        delta@[at].name@ == entries@[i].name@,
        forall|k: int| at < k < delta@.len() ==> (#[trigger] delta@[k]).name@ != delta@[at].name@,
    ensures
        ({
            let shown = entries@[i].stats;
            let held = delta@[at].stats;
            &&& shown == (Stats { ino: shown.ino, ..held })
            &&& shown.size == held.size && shown.mtime == held.mtime && shown.mode == held.mode
            &&& !origins@.contains_key(held.ino) && old(maps).reverse_delta@.contains_key(held.ino)
                ==> shown.ino == old(maps).reverse_delta@[held.ino]
            &&& !origins@.contains_key(held.ino) ==> {
                &&& final(maps).reverse_delta@.contains_key(held.ino)
                &&& final(maps).reverse_delta@[held.ino] == shown.ino
            }
            &&& origins@.contains_key(held.ino) && old(maps).reverse_base@.contains_key(
                origins@[held.ino],
            ) ==> {
                let number = old(maps).reverse_base@[origins@[held.ino]];
                old(maps).inode@.contains_key(number) && old(maps).inode@[number].path@ == (
                if dir@ == seq!['/'] {
                    seq!['/'] + entries@[i].name@
                } else {
                    dir@ + seq!['/'] + entries@[i].name@
                }) ==> shown.ino == number
            }
        }),
{
    let all = entry_models(delta@);
    assert forall|k: int| at < k < all.len() implies (#[trigger] all[k]).0 != all[at].0 by {
        assert(all[k].0 == delta@[k].name@);
    }
    assert(is_last_named(all, at));
    assert(old(maps)@.delta == old(maps).reverse_delta@);
    assert(forall|n: i64| #[trigger]
        old(maps).inode@.contains_key(n) ==> old(maps)@.inode.contains_key(n)
            && old(maps)@.inode[n].path == old(maps).inode@[n].path@);
}

/// A listed entry that only the base has carries the attributes of the base entry and the number
/// of the overlay, the one that the base inode had if it had one.
pub proof fn a_listed_entry_of_the_base_shows_through(
    maps: &mut OverlayMaps,
    origins: HashMap<i64, i64>,
    dir: &str,
    whiteouts: Whiteouts,
    delta: Vec<DirEntry>,
    base: Vec<DirEntry>,
    entries: Vec<DirEntry>,
    i: int,
    at: int,
)
    requires
        call_ensures(
            overlay_readdir_plus,
            (maps, &origins, dir, &whiteouts, &delta, &base),
            entries,
        ),
        0 <= i < entries@.len(),
        0 <= at < base@.len(),
        base@[at].name@ == entries@[i].name@,
        forall|k: int| at < k < base@.len() ==> (#[trigger] base@[k]).name@ != base@[at].name@,
        !lists(delta@, entries@[i].name@),
    ensures
        ({
            let shown = entries@[i].stats;
            let held = base@[at].stats;
            &&& shown == (Stats { ino: shown.ino, ..held })
            &&& old(maps).reverse_base@.contains_key(held.ino) ==> shown.ino
                == old(maps).reverse_base@[held.ino]
            &&& final(maps).reverse_base@.contains_key(held.ino)
            &&& final(maps).reverse_base@[held.ino] == shown.ino
        }),
{
    let all = entry_models(base@);
    assert forall|k: int| at < k < all.len() implies (#[trigger] all[k]).0 != all[at].0 by {
        assert(all[k].0 == base@[k].name@);
    }
    assert(is_last_named(all, at));
    lemma_lists(delta@, entries@[i].name@);
}

/// A listing of names is that of the entries with attributes, each name once, in order.
pub proof fn both_listings_show_the_same_names(
    maps: &mut OverlayMaps,
    origins: HashMap<i64, i64>,
    dir: &str,
    whiteouts: Whiteouts,
    delta: Vec<DirEntry>,
    base: Vec<DirEntry>,
    entries: Vec<DirEntry>,
    delta_names: Vec<String>,
    base_names: Vec<String>,
    names: Vec<String>,
    name: Seq<char>,
)
    requires
        call_ensures(
            overlay_readdir_plus,
            (maps, &origins, dir, &whiteouts, &delta, &base),
            entries,
        ),
        call_ensures(overlay_readdir, (dir, &whiteouts, &delta_names, &base_names), names),
        lists(delta@, name) == strings(delta_names@).contains(name),
        lists(base@, name) == strings(base_names@).contains(name),
    ensures
        strings(names@).contains(name) == lists(entries@, name),
        strings(names@).no_duplicates(),
{
    lemma_lists(entries@, name);
    lemma_lists(delta@, name);
    lemma_lists(base@, name);
    assert(strings(names@).to_set().contains(name) == strings(names@).contains(name));
    let all = strings(names@);
    assert forall|i: int, j: int|
        0 <= i < all.len() && 0 <= j < all.len() && i != j implies all[i] != all[j] by {
        crate::text_order::text_order_is_total(all[i], all[j]);
    }
}

/// A hidden path of a directory other than the root hides the name behind the last slash there.
pub proof fn a_hidden_path_hides_its_name(
    whiteouts: Whiteouts,
    dir: &str,
    names: Vec<String>,
    name: Seq<char>,
)
    requires
        call_ensures(Whiteouts::child_whiteouts, (&whiteouts, dir), names),
    ensures
        dir@ != seq!['/'] ==> (strings(names@).contains(name) <==> !name.contains('/') && exists|
            i: int,
        |
            0 <= i < whiteouts.paths@.len() && (#[trigger] whiteouts.paths@[i])@ == dir@ + seq!['/']
                + name),
        dir@ == seq!['/'] && !name.contains('/') && name.len() > 0 && (exists|i: int|
            0 <= i < whiteouts.paths@.len() && (#[trigger] whiteouts.paths@[i])@ == seq!['/'] + name)
            ==> strings(names@).contains(name),
        strings(names@).contains(name) ==> !name.contains('/'),
{
    let texts = strings(whiteouts.paths@);
    assert(strings(names@).to_set().contains(name) == strings(names@).contains(name));
    if strings(names@).contains(name) {
        let path = choose|path: Seq<char>| #[trigger]
            whiteouts@.contains(path) && crate::whiteouts::is_entry(path, dir@, name);
        let i = texts.index_of(path);
        assert(texts.contains(path));
        assert(texts[i] == whiteouts.paths@[i]@);
    }
    if exists|i: int|
        0 <= i < whiteouts.paths@.len() && (#[trigger] whiteouts.paths@[i])@ == dir@ + seq!['/']
            + name {
        let i = choose|i: int|
            0 <= i < whiteouts.paths@.len() && (#[trigger] whiteouts.paths@[i])@ == dir@ + seq!['/']
                + name;
        assert(texts[i] == dir@ + seq!['/'] + name);
        assert(whiteouts@.contains(dir@ + seq!['/'] + name));
    }
    if dir@ == seq!['/'] && !name.contains('/') && name.len() > 0 && (exists|i: int|
        0 <= i < whiteouts.paths@.len() && (#[trigger] whiteouts.paths@[i])@ == seq!['/'] + name) {
        let i = choose|i: int|
            0 <= i < whiteouts.paths@.len() && (#[trigger] whiteouts.paths@[i])@ == seq!['/'] + name;
        let path = seq!['/'] + name;
        assert(texts[i] == path);
        assert(whiteouts@.contains(path));
        assert(path.skip(1) =~= name);
        assert(name.contains(name[0]));
        assert(crate::whiteouts::trim_start_slashes(name) == name);
        assert(crate::whiteouts::trim_start_slashes(path) == name);
    }
}

/// A base file is copied up in parts only if it is a regular file and the policy wants that: of
/// every one, or of those that reach the threshold. Nothing else is.
pub proof fn only_regular_files_are_copied_in_parts(
    policy: PartialOriginPolicy,
    stats: Stats,
    yes: bool,
)
    requires
        call_ensures(PartialOriginPolicy::permits, (&policy, &stats), yes),
    ensures
        stats.mode & 0o170000 != 0o100000 ==> !yes,
        policy.mode == PartialOriginMode::Off ==> !yes,
        stats.mode & 0o170000 == 0o100000 && policy.mode == PartialOriginMode::On ==> yes,
        stats.mode & 0o170000 == 0o100000 && policy.mode == PartialOriginMode::Auto ==> (yes
            <==> stats.size >= policy.threshold_bytes),
{
}

/// An inode stands for a hidden file exactly if it is one of the base and its path is hidden. What
/// the delta has is never taken for hidden.
pub proof fn only_base_files_are_hidden(
    info: InodeInfo,
    whiteouts: Whiteouts,
    path: &str,
    hidden: bool,
    yes: bool,
)
    requires
        path@ == info.path@,
        call_ensures(Whiteouts::is_whiteout, (&whiteouts, path), hidden),
        call_ensures(hidden_base, (&info, &whiteouts), yes),
    ensures
        yes <==> info.layer == Layer::Base && hidden,
{
}

/// Attributes are read where the inode is: in the delta, or in the base unless it is hidden there.
/// What the kernel cached may go stale exactly where it is read from the base.
pub proof fn an_inode_is_read_where_it_is(
    info: InodeInfo,
    whiteouts: Whiteouts,
    hidden: bool,
    place: ReadFrom,
    nowhere: ReadFrom,
    policy: KernelCachePolicy,
)
    requires
        call_ensures(hidden_base, (&info, &whiteouts), hidden),
        call_ensures(read_from, (Some(&info), &whiteouts), place),
        call_ensures(read_from, (None, &whiteouts), nowhere),
        call_ensures(kernel_cache_policy, (Some(&info), &whiteouts), policy),
    ensures
        info.layer == Layer::Delta ==> place == ReadFrom::Delta(info.underlying_ino),
        info.layer == Layer::Base && !hidden ==> place == ReadFrom::Base(info.underlying_ino),
        info.layer == Layer::Base && hidden ==> place == ReadFrom::Nowhere,
        nowhere == ReadFrom::Nowhere,
        policy == KernelCachePolicy::ExternalDrift <==> place is Base,
{
}

/// Attributes are changed in the delta alone: what is there already is changed there, and what is
/// in the base is copied first, in parts if the policy wants that. What is missing or hidden is
/// not found.
pub proof fn attributes_change_in_the_delta(
    info: InodeInfo,
    whiteouts: Whiteouts,
    policy: PartialOriginPolicy,
    base: Option<Stats>,
    hidden: bool,
    in_parts: bool,
    result: Result<ChangeRoute, FsError>,
    missing: Result<ChangeRoute, FsError>,
)
    requires
        call_ensures(hidden_base, (&info, &whiteouts), hidden),
        base is Some ==> call_ensures(
            PartialOriginPolicy::permits,
            (&policy, &base->Some_0),
            in_parts,
        ),
        call_ensures(attr_route, (Some(&info), &whiteouts, &policy, base), result),
        call_ensures(attr_route, (None, &whiteouts, &policy, base), missing),
    ensures
        info.layer == Layer::Delta ==> result == Ok::<ChangeRoute, FsError>(
            ChangeRoute::Delta(info.underlying_ino),
        ),
        info.layer == Layer::Base && !hidden && base is Some ==> result == Ok::<
            ChangeRoute,
            FsError,
        >(
            if in_parts {
                ChangeRoute::PartialCopyUp
            } else {
                ChangeRoute::CopyUp
            },
        ),
        info.layer == Layer::Base && (hidden || base is None) ==> result == Err::<
            ChangeRoute,
            FsError,
        >(FsError::NotFound),
        missing == Err::<ChangeRoute, FsError>(FsError::NotFound),
{
}

/// A file of the delta is opened there. One of the base is opened there to be read, under the
/// inode that its path has now, and copied first to be written, in parts if the policy wants that.
/// What is missing or hidden is not found.
pub proof fn a_base_file_is_opened_only_to_be_read(
    info: InodeInfo,
    whiteouts: Whiteouts,
    policy: PartialOriginPolicy,
    flags: i32,
    bits: OpenBits,
    base: Option<Stats>,
    hidden: bool,
    in_parts: bool,
    write: bool,
    result: Result<OpenRoute, FsError>,
    missing: Result<OpenRoute, FsError>,
)
    requires
        call_ensures(hidden_base, (&info, &whiteouts), hidden),
        base is Some ==> call_ensures(
            PartialOriginPolicy::permits,
            (&policy, &base->Some_0),
            in_parts,
        ),
        call_ensures(is_write_open, (flags, &bits), write),
        call_ensures(open_route, (Some(&info), &whiteouts, &policy, flags, &bits, base), result),
        call_ensures(open_route, (None, &whiteouts, &policy, flags, &bits, base), missing),
    ensures
        info.layer == Layer::Delta ==> result == Ok::<OpenRoute, FsError>(
            OpenRoute::Delta(info.underlying_ino),
        ),
        info.layer == Layer::Base && !hidden ==> (base matches Some(stats) ==> result == Ok::<
            OpenRoute,
            FsError,
        >(
            if !write {
                OpenRoute::Base(stats.ino)
            } else if in_parts {
                OpenRoute::PartialCopyUp
            } else {
                OpenRoute::CopyUp
            },
        )),
        info.layer == Layer::Base && (hidden || base is None) ==> result == Err::<
            OpenRoute,
            FsError,
        >(FsError::NotFound),
        missing == Err::<OpenRoute, FsError>(FsError::NotFound),
{
}

/// The kernel keeps pages over an open only of a regular file that is opened to be read, and of
/// one of the delta only where that is allowed. It keeps them on the attributes of that file.
pub proof fn pages_are_kept_of_regular_files_that_are_read(
    info: InodeInfo,
    flags: i32,
    bits: OpenBits,
    keeps_delta: bool,
    stats: Option<Stats>,
    write: bool,
    result: Result<Option<Stats>, FsError>,
    missing: Result<Option<Stats>, FsError>,
    grant: Option<Stats>,
)
    requires
        call_ensures(is_write_open, (flags, &bits), write),
        call_ensures(
            keep_cache_for_read_open,
            (Some(&info), flags, &bits, keeps_delta, stats),
            result,
        ),
        call_ensures(keep_cache_for_read_open, (None, flags, &bits, keeps_delta, stats), missing),
        call_ensures(keep_cache_for_delta_open, (flags, &bits, keeps_delta, stats), grant),
    ensures
        result is Ok,
        result matches Ok(kept) ==> {
            &&& kept is Some ==> kept == stats
            &&& kept is Some <==> {
                &&& !write
                &&& stats matches Some(found) && found.mode & 0o170000 == 0o100000
                &&& info.layer == Layer::Delta ==> keeps_delta
            }
        },
        missing == if write {
            Ok::<Option<Stats>, FsError>(None)
        } else {
            Err(FsError::NotFound)
        },
        grant is Some ==> grant == stats,
        grant is Some <==> {
            &&& !write
            &&& keeps_delta
            &&& stats matches Some(found) && found.mode & 0o170000 == 0o100000
        },
{
}

/// Only what is there and is no directory is unlinked; only what is there, is a directory and is
/// empty in the overlay is removed as one.
pub proof fn the_overlay_removes_what_is_there(
    found: Option<Stats>,
    entries: usize,
    unlink: Result<(), FsError>,
    rmdir: Result<(), FsError>,
)
    requires
        call_ensures(check_overlay_unlink, (found,), unlink),
        call_ensures(check_overlay_rmdir, (found, entries), rmdir),
    ensures
        found is None ==> unlink == Err::<(), FsError>(FsError::NotFound) && rmdir == Err::<
            (),
            FsError,
        >(FsError::NotFound),
        found matches Some(stats) ==> {
            let dir = stats.mode & 0o170000 == 0o040000;
            &&& dir ==> unlink == Err::<(), FsError>(FsError::IsADirectory)
            &&& !dir ==> unlink is Ok
            &&& !dir ==> rmdir == Err::<(), FsError>(FsError::NotADirectory)
            &&& dir && entries > 0 ==> rmdir == Err::<(), FsError>(FsError::NotEmpty)
            &&& dir && entries == 0 ==> rmdir is Ok
        },
{
}

/// An entry that the delta lacks counts as removed from it. Any other failure stays one.
pub proof fn what_the_delta_lacks_is_removed(
    outcome: Result<(), FsError>,
    result: Result<(), FsError>,
)
    requires
        call_ensures(removed_from_delta, (outcome,), result),
    ensures
        outcome is Ok ==> result is Ok,
        outcome == Err::<(), FsError>(FsError::NotFound) ==> result is Ok,
        outcome is Err && outcome->Err_0 != FsError::NotFound ==> result == outcome,
{
}

/// What is missing is not renamed, nor a directory that the base shows: that is left to a copy by
/// the caller. Everything else is renamed as it is.
pub proof fn directories_of_the_base_are_not_renamed(
    source: Option<Stats>,
    whiteouts: Whiteouts,
    path: &str,
    base: Option<Stats>,
    hidden: bool,
    visible: bool,
    result: Result<Stats, FsError>,
)
    requires
        call_ensures(Whiteouts::is_whiteout, (&whiteouts, path), hidden),
        call_ensures(visible_base_directory, (&whiteouts, path, base), visible),
        call_ensures(check_overlay_rename, (source, visible), result),
    ensures
        visible <==> !hidden && (base matches Some(stats) && stats.mode & 0o170000 == 0o040000),
        source is None ==> result == Err::<Stats, FsError>(FsError::NotFound),
        source matches Some(stats) ==> {
            let dir = stats.mode & 0o170000 == 0o040000;
            &&& dir && visible ==> result == Err::<Stats, FsError>(FsError::CrossDevice)
            &&& !(dir && visible) ==> result == Ok::<Stats, FsError>(stats)
        },
{
}

/// A name is hidden when it still shows after the delta lost it, and a walk through the delta goes
/// on from directories alone.
pub proof fn what_still_shows_is_hidden(
    found: Option<Stats>,
    whiteout: bool,
    next: Option<i64>,
)
    requires
        call_ensures(needs_whiteout, (found,), whiteout),
        call_ensures(delta_step, (found,), next),
    ensures
        whiteout <==> found is Some,
        next is Some <==> (found matches Some(stats) && stats.mode & 0o170000 == 0o040000),
        next matches Some(ino) ==> ino == (found->Some_0).ino,
{
}

/// A hidden path is recorded with its directory, and what was recorded is deleted when the path is
/// shown again.
pub proof fn hidden_paths_are_recorded(
    whiteouts: Whiteouts,
    path: &str,
    now: i64,
    hide: SqlStatement,
    show: Option<SqlStatement>,
)
    requires
        call_ensures(whiteout_statement, (path, now), hide),
        call_ensures(unhide_statement, (&whiteouts, path), show),
    ensures
        hide.sql@
            == "INSERT OR REPLACE INTO fs_whiteout (path, parent_path, created_at) VALUES (?, ?, ?)"@,
        models(hide.values@).len() == 3,
        models(hide.values@)[0] == SqlModel::Text(path@),
        models(hide.values@)[2] == SqlModel::Integer(now),
        show is Some <==> strings(whiteouts.paths@).contains(path@),
        show matches Some(statement) ==> statement.sql@ == "DELETE FROM fs_whiteout WHERE path = ?"@
            && models(statement.values@) == seq![SqlModel::Text(path@)],
{
    assert(whiteouts@.contains(path@) == strings(whiteouts.paths@).contains(path@));
}

/// The directory of a path is what stands before its last slash, and the root if nothing does. A
/// path with its directory and a name is made of both again.
pub proof fn a_path_is_its_directory_and_its_name(
    dir: Seq<char>,
    name: Seq<char>,
    path: &str,
    found: String,
    recorded: String,
)
    requires
        path@ == dir + seq!['/'] + name,
        !name.contains('/'),
        name.len() > 0,
        call_ensures(directory_of, (path,), found),
        call_ensures(parent_path_for_whiteout, (path,), recorded),
    ensures
        dir.len() > 0 ==> found@ == dir,
        dir.len() == 0 ==> found@ == seq!['/'],
        recorded@ == found@,
{
    lemma_before_last_slash(dir, name);
    let last = path@.last();
    assert(last == name.last());
    assert(name.contains(name[name.len() - 1]));
    assert(crate::path::trim_end_slashes(path@) == path@);
}

proof fn lemma_before_last_slash(dir: Seq<char>, name: Seq<char>)
    requires
        !name.contains('/'),
    ensures
        crate::whiteouts::before_last_slash(dir + seq!['/'] + name) == Some(dir),
    decreases name.len(),
{
    let path = dir + seq!['/'] + name;
    if name.len() == 0 {
        assert(path.drop_last() =~= dir);
        assert(path.last() == '/');
    } else {
        let rest = name.drop_last();
        assert(path.drop_last() =~= dir + seq!['/'] + rest);
        assert(name.contains(name[name.len() - 1]));
        assert(path.last() == name.last());
        assert(!rest.contains('/')) by {
            if rest.contains('/') {
                let i = rest.index_of('/');
                assert(name[i] == '/');
            }
        }
        lemma_before_last_slash(dir, rest);
    }
}

} // verus!
