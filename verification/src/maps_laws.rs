//! What the numbers of an overlay promise to those who were told of them.
use crate::error::FsError;
use crate::overlay_maps::{InodeInfo, Layer, MapsModel, OverlayMaps};
use vstd::prelude::*;

verus! {

/// The overlay number that an inode of a layer has.
pub open spec fn number_of(maps: MapsModel, layer: Layer, underlying: i64) -> Option<i64> {
    if layer == Layer::Delta && maps.delta.contains_key(underlying) {
        Some(maps.delta[underlying])
    } else if layer == Layer::Base && maps.base.contains_key(underlying) {
        Some(maps.base[underlying])
    } else {
        None
    }
}

/// How often the kernel was told of a number.
pub open spec fn times_told(maps: MapsModel, ino: i64) -> int {
    if maps.refs.contains_key(ino) {
        maps.refs[ino] as int
    } else {
        0
    }
}

/// A new overlay has its root, at the number 1 and the path `/`, and nothing else.
pub proof fn a_new_overlay_has_its_root(maps: OverlayMaps)
    requires
        call_ensures(OverlayMaps::new, (), maps),
    ensures
        maps@.inode.dom() == set![1i64],
        maps@.inode[1].layer == Layer::Delta,
        maps@.inode[1].underlying_ino == 1,
        maps@.inode[1].path == seq!['/'],
        maps@.path.dom() == set![seq!['/']],
        maps@.path[seq!['/']] == 1,
        number_of(maps@, Layer::Delta, 1) == Some(1i64),
        maps@.base.dom() == Set::<i64>::empty(),
        maps@.refs.dom() == Set::<i64>::empty(),
        maps@.next_ino == 2,
{
    assert(maps@.inode.dom() =~= set![1i64]);
    assert(maps@.path.dom() =~= set![seq!['/']]);
    assert(maps@.base.dom() =~= Set::<i64>::empty());
    assert(maps@.refs.dom() =~= Set::<i64>::empty());
}

/// An inode of a layer that has a number keeps it. One that has none gets one that
/// nothing had. Either way the kernel counts as told once more, the root apart, and every
/// other number stands for what it stood for.
pub proof fn an_inode_keeps_its_number(
    maps: &mut OverlayMaps,
    layer: Layer,
    underlying: i64,
    path: &str,
    ino: i64,
    other: i64,
)
    requires
        old(maps).wf(),
        old(maps).next_ino < i64::MAX,
        call_ensures(OverlayMaps::get_or_create, (maps, layer, underlying, path), ino),
        other != ino,
    ensures
        number_of(final(maps)@, layer, underlying) == Some(ino),
        match number_of(old(maps)@, layer, underlying) {
            Some(had) => {
                &&& ino == had
                &&& final(maps)@.inode == old(maps)@.inode
                &&& final(maps)@.path == old(maps)@.path
            },
            None => {
                &&& !old(maps)@.inode.contains_key(ino)
                &&& final(maps)@.inode.contains_key(ino)
                &&& final(maps)@.inode[ino].layer == layer
                &&& final(maps)@.inode[ino].underlying_ino == underlying
                &&& final(maps)@.inode[ino].path == path@
                &&& !final(maps)@.inode[ino].has_extra_reverse
                &&& final(maps)@.path.contains_key(path@)
                &&& final(maps)@.path[path@] == ino
                &&& times_told(final(maps)@, ino) == 1
            },
        },
        number_of(old(maps)@, layer, underlying) is Some && ino != 1 && times_told(
            old(maps)@,
            ino,
        ) < u64::MAX ==> times_told(final(maps)@, ino) == times_told(old(maps)@, ino) + 1,
        times_told(final(maps)@, other) == times_told(old(maps)@, other),
        old(maps)@.inode.contains_key(other) <==> final(maps)@.inode.contains_key(other),
        old(maps)@.inode.contains_key(other) ==> final(maps)@.inode[other]
            == old(maps)@.inode[other],
{
}

/// What is known of other inodes and paths does not change when one gets its number.
pub proof fn a_new_number_changes_no_other(
    maps: &mut OverlayMaps,
    layer: Layer,
    underlying: i64,
    path: &str,
    ino: i64,
    other_layer: Layer,
    other: i64,
    other_path: Seq<char>,
)
    requires
        old(maps).wf(),
        old(maps).next_ino < i64::MAX,
        call_ensures(OverlayMaps::get_or_create, (maps, layer, underlying, path), ino),
        other_layer != layer || other != underlying,
        other_path != path@,
    ensures
        number_of(final(maps)@, other_layer, other) == number_of(old(maps)@, other_layer, other),
        old(maps)@.path.contains_key(other_path) <==> final(maps)@.path.contains_key(other_path),
        old(maps)@.path.contains_key(other_path) ==> final(maps)@.path[other_path]
            == old(maps)@.path[other_path],
{
}

/// A refreshed number stands for what it was given, leads there from both sides, and is
/// no longer found at its old path.
pub proof fn a_refreshed_number_stands_for_what_it_was_given(
    maps: &mut OverlayMaps,
    ino: i64,
    layer: Layer,
    underlying: i64,
    path: &str,
)
    requires
        old(maps).wf(),
        call_ensures(OverlayMaps::refresh, (maps, ino, layer, underlying, path), ()),
    ensures
        !old(maps)@.inode.contains_key(ino) ==> final(maps)@ == old(maps)@,
        old(maps)@.inode.contains_key(ino) ==> {
            let before = old(maps)@.inode[ino];
            let after = final(maps)@.inode[ino];
            &&& final(maps)@.inode.dom() == old(maps)@.inode.dom()
            &&& after.layer == layer
            &&& after.underlying_ino == underlying
            &&& after.path == path@
            &&& final(maps)@.path.contains_key(path@)
            &&& final(maps)@.path[path@] == ino
            &&& number_of(final(maps)@, layer, underlying) == Some(ino)
            &&& before.path != path@ && old(maps)@.path.contains_key(before.path)
                && old(maps)@.path[before.path] == ino ==> !final(maps)@.path.contains_key(
                before.path,
            )
            &&& before.path != path@ && old(maps)@.path.contains_key(before.path)
                && old(maps)@.path[before.path] != ino ==> final(maps)@.path.contains_key(
                before.path,
            ) && final(maps)@.path[before.path] == old(maps)@.path[before.path]
            &&& before.layer == Layer::Base && layer == Layer::Delta ==> after.has_extra_reverse
                && number_of(final(maps)@, Layer::Base, before.underlying_ino) == number_of(
                old(maps)@,
                Layer::Base,
                before.underlying_ino,
            )
            &&& before.has_extra_reverse ==> after.has_extra_reverse
            &&& after.has_extra_reverse ==> before.has_extra_reverse || (before.layer
                == Layer::Base && layer == Layer::Delta)
        },
        final(maps)@.refs == old(maps)@.refs,
        final(maps)@.next_ino == old(maps)@.next_ino,
{
    if old(maps)@.inode.contains_key(ino) {
        assert(final(maps)@.inode.dom() =~= old(maps)@.inode.dom());
    }
}

/// A path that moves to the delta keeps its number and its count, and only the delta leads
/// to it from then on. A path that is in the delta already is left alone.
pub proof fn a_promoted_path_keeps_its_number(maps: &mut OverlayMaps, path: &str, delta_ino: i64)
    requires
        old(maps).wf(),
        call_ensures(OverlayMaps::promote_to_delta, (maps, path, delta_ino), ()),
    ensures
        final(maps)@.path == old(maps)@.path,
        final(maps)@.refs == old(maps)@.refs,
        final(maps)@.next_ino == old(maps)@.next_ino,
        ({
            let ino = old(maps)@.path[path@];
            let info = old(maps)@.inode[ino];
            if old(maps)@.path.contains_key(path@) && old(maps)@.inode.contains_key(ino)
                && info.layer == Layer::Base {
                &&& final(maps)@.inode.dom() == old(maps)@.inode.dom()
                &&& final(maps)@.inode[ino].layer == Layer::Delta
                &&& final(maps)@.inode[ino].underlying_ino == delta_ino
                &&& final(maps)@.inode[ino].path == info.path
                &&& !final(maps)@.inode[ino].has_extra_reverse
                &&& number_of(final(maps)@, Layer::Delta, delta_ino) == Some(ino)
                &&& number_of(final(maps)@, Layer::Base, info.underlying_ino) is None
            } else {
                final(maps)@ == old(maps)@
            }
        }),
{
    let ino = old(maps)@.path[path@];
    if old(maps)@.path.contains_key(path@) && old(maps)@.inode.contains_key(ino)
        && old(maps)@.inode[ino].layer == Layer::Base {
        assert(final(maps)@.inode.dom() =~= old(maps)@.inode.dom());
    }
}

/// Telling the kernel of a number adds to its count, up to the largest that is counted.
/// The root is not counted.
pub proof fn what_the_kernel_is_told_of_is_counted(
    maps: &mut OverlayMaps,
    ino: i64,
    nlookup: u64,
    other: i64,
)
    requires
        old(maps).wf(),
        call_ensures(OverlayMaps::retain_lookup, (maps, ino, nlookup), ()),
        other != ino,
    ensures
        ino != 1 && times_told(old(maps)@, ino) + nlookup <= u64::MAX ==> times_told(
            final(maps)@,
            ino,
        ) == times_told(old(maps)@, ino) + nlookup,
        ino != 1 && times_told(old(maps)@, ino) + nlookup > u64::MAX ==> times_told(
            final(maps)@,
            ino,
        ) == u64::MAX,
        ino == 1 ==> final(maps)@ == old(maps)@,
        times_told(final(maps)@, other) == times_told(old(maps)@, other),
        final(maps)@.inode == old(maps)@.inode,
        final(maps)@.path == old(maps)@.path,
        final(maps)@.delta == old(maps)@.delta,
        final(maps)@.base == old(maps)@.base,
{
}

/// A number stays while the kernel was told of it more often than it forgot it, and is
/// gone after that: nothing leads to it, and it stands for nothing. What other numbers
/// stand for does not change.
pub proof fn a_number_goes_with_its_last_lookup(
    maps: &mut OverlayMaps,
    ino: i64,
    nlookup: u64,
    other: i64,
)
    requires
        old(maps).wf(),
        call_ensures(OverlayMaps::forget_lookup, (maps, ino, nlookup), ()),
        other != ino,
    ensures
        ino == 1 || times_told(old(maps)@, ino) == 0 ==> final(maps)@ == old(maps)@,
        ino != 1 && times_told(old(maps)@, ino) > nlookup ==> {
            &&& times_told(final(maps)@, ino) == times_told(old(maps)@, ino) - nlookup
            &&& final(maps)@.inode == old(maps)@.inode
            &&& final(maps)@.path == old(maps)@.path
            &&& final(maps)@.delta == old(maps)@.delta
            &&& final(maps)@.base == old(maps)@.base
        },
        ino != 1 && 0 < times_told(old(maps)@, ino) <= nlookup ==> {
            let info = old(maps)@.inode[ino];
            &&& times_told(final(maps)@, ino) == 0
            &&& !final(maps)@.inode.contains_key(ino)
            &&& old(maps)@.inode.contains_key(ino) ==> {
                &&& number_of(final(maps)@, info.layer, info.underlying_ino) is None
                &&& final(maps)@.path.contains_key(info.path) ==> final(maps)@.path[info.path]
                    != ino
            }
        },
        times_told(final(maps)@, other) == times_told(old(maps)@, other),
        old(maps)@.inode.contains_key(other) <==> final(maps)@.inode.contains_key(other),
        old(maps)@.inode.contains_key(other) ==> final(maps)@.inode[other]
            == old(maps)@.inode[other],
        final(maps)@.next_ino == old(maps)@.next_ino,
{
}

/// A number that stood for a base file and then for its copy is found from neither once
/// it is gone.
pub proof fn a_copied_number_goes_from_both_layers(
    maps: &mut OverlayMaps,
    ino: i64,
    nlookup: u64,
    layer: Layer,
    underlying: i64,
)
    requires
        old(maps).wf(),
        call_ensures(OverlayMaps::forget_lookup, (maps, ino, nlookup), ()),
        ino != 1,
        0 < times_told(old(maps)@, ino) <= nlookup,
        old(maps)@.inode.contains_key(ino),
        old(maps)@.inode[ino].has_extra_reverse,
    ensures
        number_of(final(maps)@, layer, underlying) != Some(ino),
        number_of(old(maps)@, layer, underlying) != Some(ino) && !(layer
            == old(maps)@.inode[ino].layer && underlying == old(maps)@.inode[ino].underlying_ino)
            ==> number_of(final(maps)@, layer, underlying) == number_of(
            old(maps)@,
            layer,
            underlying,
        ),
{
}

/// What a number stands for is handed out as it is.
pub proof fn a_number_is_told_what_it_stands_for(
    maps: OverlayMaps,
    ino: i64,
    info: Option<InodeInfo>,
)
    requires
        call_ensures(OverlayMaps::get_inode_info, (&maps, ino), info),
    ensures
        info is Some <==> maps@.inode.contains_key(ino),
        info is Some ==> info->0.layer == maps@.inode[ino].layer,
        info is Some ==> info->0.underlying_ino == maps@.inode[ino].underlying_ino,
        info is Some ==> info->0.path@ == maps@.inode[ino].path,
        info is Some ==> info->0.has_extra_reverse == maps@.inode[ino].has_extra_reverse,
{
}

/// The number of a base inode is reused for its copy only where it still stands for the
/// path that is looked up.
pub proof fn a_base_number_is_reused_for_its_path(
    maps: OverlayMaps,
    base_ino: i64,
    path: &str,
    ino: Option<i64>,
)
    requires
        call_ensures(OverlayMaps::live_origin_overlay_ino, (&maps, base_ino, path), ino),
    ensures
        ino is Some ==> number_of(maps@, Layer::Base, base_ino) == ino,
        ino is Some ==> maps@.inode.contains_key(ino->0) && maps@.inode[ino->0].path == path@,
        ino is None ==> {
            ||| number_of(maps@, Layer::Base, base_ino) is None
            ||| !maps@.inode.contains_key(number_of(maps@, Layer::Base, base_ino)->0)
            ||| maps@.inode[number_of(maps@, Layer::Base, base_ino)->0].path != path@
        },
{
}

/// A child's path is its directory's, a slash and its name; below the root the slash is
/// not doubled.
pub proof fn a_childs_path_begins_with_its_directory(
    maps: OverlayMaps,
    parent: i64,
    name: &str,
    result: Result<String, FsError>,
)
    requires
        call_ensures(OverlayMaps::build_path, (&maps, parent, name), result),
    ensures
        result is Ok <==> maps@.inode.contains_key(parent),
        result is Err ==> result->Err_0 is NotFound,
        result is Ok && maps@.inode[parent].path == seq!['/'] ==> result->Ok_0@ == seq!['/']
            + name@,
        result is Ok && maps@.inode[parent].path != seq!['/'] ==> result->Ok_0@
            == maps@.inode[parent].path + seq!['/'] + name@,
{
    if result is Ok {
        let dir = maps@.inode[parent].path;
        if dir == seq!['/'] {
            assert(result->Ok_0@ =~= seq!['/'] + name@);
        } else {
            assert(result->Ok_0@ =~= dir + seq!['/'] + name@);
        }
    }
}

} // verus!
