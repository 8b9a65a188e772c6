//! What a lookup in the overlay finds.
use crate::error::FsError;
use crate::maps_laws::number_of;
use crate::overlay_lookup::{
    LayerModel, LookupAsk, OverlayLookup, answered, base_child, base_dir, delta_child, delta_dir,
    lemma_broken_base_way, looked_up,
};
use crate::overlay_maps::{InfoModel, Layer, MapsModel, OverlayMaps};
use crate::stats::Stats;
use crate::whiteouts::{Whiteouts, hides};
use std::collections::HashMap;
use vstd::prelude::*;

verus! {

/// Whether attributes are those of another file but for the number.
pub open spec fn shows_as(shown: Stats, found: Stats) -> bool {
    &&& shown.mode == found.mode
    &&& shown.nlink == found.nlink
    &&& shown.uid == found.uid
    &&& shown.gid == found.gid
    &&& shown.size == found.size
    &&& shown.atime == found.atime
    &&& shown.atime_nsec == found.atime_nsec
    &&& shown.mtime == found.mtime
    &&& shown.mtime_nsec == found.mtime_nsec
    &&& shown.ctime == found.ctime
    &&& shown.ctime_nsec == found.ctime_nsec
    &&& shown.rdev == found.rdev
}

/// A name leads to what the delta has, and where the delta has nothing to what the base
/// has. It has that file's attributes, and the number that stands for that file from then
/// on. A hidden name leads nowhere.
pub proof fn a_name_leads_to_the_topmost_file(
    maps: MapsModel,
    origins: Map<i64, i64>,
    hidden: Set<Seq<char>>,
    delta: LayerModel,
    base: LayerModel,
    info: InfoModel,
    name: Seq<char>,
    path: Seq<char>,
)
    requires
        maps.wf(),
        maps.next_ino < i64::MAX,
        path == if info.path == seq!['/'] {
            seq!['/'] + name
        } else {
            info.path + seq!['/'] + name
        },
    ensures
        ({
            let (after, found) = looked_up(maps, origins, hidden, delta, base, info, name);
            let above = delta_child(delta, info, name);
            let below = base_child(base, info, name);
            &&& hides(hidden, path) ==> found is None && after == maps
            &&& !hides(hidden, path) && above is Some ==> {
                &&& found is Some
                &&& shows_as(found->0, above->0)
                &&& number_of(after, Layer::Delta, above->0.ino) == Some(found->0.ino)
            }
            &&& !hides(hidden, path) && above is None && below is Some ==> {
                &&& found is Some
                &&& shows_as(found->0, below->0)
                &&& number_of(after, Layer::Base, below->0.ino) == Some(found->0.ino)
            }
            &&& above is None && below is None ==> found is None && after == maps
        }),
{
    assert(crate::overlay_maps::child_path(info.path, name) =~= path);
}

/// A directory of a layer is looked into where it is. One that only the other layer has is
/// looked for by its path, from the root, and in the delta only through directories.
pub proof fn a_way_leads_through_directories(
    layer: LayerModel,
    way: Seq<Seq<char>>,
    name: Seq<char>,
    info: InfoModel,
)
    ensures
        delta_dir(layer, Seq::empty()) == Some(1i64),
        base_dir(layer, Seq::empty()) == Some(1i64),
        delta_dir(layer, way.push(name)) is Some <==> {
            &&& delta_dir(layer, way) is Some
            &&& layer.contains_key((delta_dir(layer, way)->0, name))
            &&& layer[(delta_dir(layer, way)->0, name)].mode & 0o170000 == 0o040000
        },
        delta_dir(layer, way.push(name)) is Some ==> delta_dir(layer, way.push(name))->0
            == layer[(delta_dir(layer, way)->0, name)].ino,
        base_dir(layer, way.push(name)) is Some <==> {
            &&& base_dir(layer, way) is Some
            &&& layer.contains_key((base_dir(layer, way)->0, name))
        },
        base_dir(layer, way.push(name)) is Some ==> base_dir(layer, way.push(name))->0
            == layer[(base_dir(layer, way)->0, name)].ino,
        info.layer == Layer::Delta ==> (delta_child(layer, info, name) is Some
            <==> layer.contains_key((info.underlying_ino, name))),
        info.layer == Layer::Delta && delta_child(layer, info, name) is Some ==> delta_child(
            layer,
            info,
            name,
        )->0 == layer[(info.underlying_ino, name)],
        info.layer == Layer::Base ==> (base_child(layer, info, name) is Some
            <==> layer.contains_key((info.underlying_ino, name))),
        info.layer == Layer::Base && base_child(layer, info, name) is Some ==> base_child(
            layer,
            info,
            name,
        )->0 == layer[(info.underlying_ino, name)],
{
    assert(way.push(name).drop_last() =~= way);
    assert(way.push(name).last() == name);
}

/// What was found in a layer is shown with its attributes, under the number that stands for
/// it.
pub proof fn what_was_found_is_shown_under_its_number(
    from_delta: &mut OverlayMaps,
    origins: HashMap<i64, i64>,
    from_base: &mut OverlayMaps,
    path: &str,
    found: Stats,
    upper: Stats,
    lower: Stats,
)
    requires
        old(from_delta).wf() && old(from_base).wf(),
        old(from_delta).next_ino < i64::MAX && old(from_base).next_ino < i64::MAX,
        call_ensures(OverlayMaps::found_in_delta, (from_delta, &origins, path, found), upper),
        call_ensures(OverlayMaps::found_in_base, (from_base, path, found), lower),
    ensures
        shows_as(upper, found),
        shows_as(lower, found),
        number_of(final(from_delta)@, Layer::Delta, found.ino) == Some(upper.ino),
        number_of(final(from_base)@, Layer::Base, found.ino) == Some(lower.ino),
        number_of(old(from_base)@, Layer::Base, found.ino) is Some ==> number_of(
            old(from_base)@,
            Layer::Base,
            found.ino,
        ) == Some(lower.ino),
{
}

/// A file of the delta that was copied from the base has the number that the base file had
/// at that path. Any other keeps the number that it had.
pub proof fn a_copy_has_the_number_of_its_origin(
    maps: &mut OverlayMaps,
    origins: HashMap<i64, i64>,
    delta_ino: i64,
    path: &str,
    ino: i64,
    had: i64,
)
    requires
        old(maps).wf(),
        old(maps).next_ino < i64::MAX,
        call_ensures(OverlayMaps::bind_delta, (maps, &origins, delta_ino, path), ino),
    ensures
        number_of(final(maps)@, Layer::Delta, delta_ino) == Some(ino),
        origins@.contains_key(delta_ino) && number_of(
            old(maps)@,
            Layer::Base,
            origins@[delta_ino],
        ) == Some(had) && old(maps)@.inode.contains_key(had) && old(maps)@.inode[had].path
            == path@ ==> {
            &&& ino == had
            &&& final(maps)@.inode[had].layer == Layer::Delta
            &&& final(maps)@.inode[had].underlying_ino == delta_ino
            &&& final(maps)@.inode[had].path == path@
        },
        !origins@.contains_key(delta_ino) && number_of(old(maps)@, Layer::Delta, delta_ino)
            == Some(had) ==> ino == had,
{
    let model = old(maps)@;
    let (got, first) = model.got(Layer::Delta, delta_ino, path@);
    assert(got.base == model.base);
    if origins@.contains_key(delta_ino) && number_of(model, Layer::Base, origins@[delta_ino])
        == Some(had) && model.inode.contains_key(had) && model.inode[had].path == path@ {
        assert(got.inode.contains_key(had) && got.inode[had] == model.inode[had]);
    }
}

/// The answer to the last question of a lookup is what is found: in the delta before the
/// base is asked, and with the attributes of the answer.
pub proof fn the_last_answer_is_found(
    lookup: &mut OverlayLookup<'_>,
    maps: &mut OverlayMaps,
    origins: HashMap<i64, i64>,
    answer: Option<Stats>,
    hidden: Set<Seq<char>>,
    delta: LayerModel,
    base: LayerModel,
)
    requires
        old(lookup).wf(),
        old(lookup).asked !is Found,
        old(maps).wf(),
        old(maps).next_ino < i64::MAX,
        call_ensures(OverlayLookup::step, (lookup, maps, &origins, answer), ()),
        old(lookup).knows(old(maps)@, old(maps)@, origins@, hidden, delta, base),
        answered(*old(lookup), delta, base, answer),
    ensures
        old(lookup).asked is DeltaName && answer is Some || old(lookup).asked is BaseName
            ==> final(lookup).asked is Found,
        final(lookup).asked matches LookupAsk::Found(found) ==> {
            &&& old(lookup).asked is DeltaName && answer is Some || old(lookup).asked is BaseName
                ==> (found is Some <==> answer is Some)
            &&& (old(lookup).asked is DeltaName && answer is Some || old(lookup).asked is BaseName)
                && found is Some ==> shows_as(found->0, answer->0)
            &&& old(lookup).asked is BaseStep && answer is None ==> found is None
        },
        final(lookup).asked !is Found ==> final(maps)@ == old(maps)@,
        final(lookup).name@ == old(lookup).name@,
        final(lookup).path@ == old(lookup).path@,
{
    let before = *old(lookup);
    assert(final(lookup).knows(old(maps)@, final(maps)@, origins@, hidden, delta, base));
    if before.asked is BaseStep && answer is None {
        let parts = crate::text::strings(before.way@);
        let n = before.walked as int;
        assert(parts.len() == before.way@.len());
        assert(parts.take(n + 1).drop_last() =~= parts.take(n));
        assert(parts.take(n + 1).last() == before.way@[n]@);
        assert(base_dir(base, parts.take(n + 1)) is None);
        lemma_broken_base_way(base, parts, n + 1);
    }
}

/// A lookup of a hidden path is over before it begins, and one in a directory that nobody
/// was told of is refused.
pub proof fn a_hidden_path_is_not_looked_for(
    maps: OverlayMaps,
    whiteouts: Whiteouts,
    parent: i64,
    name: &str,
    result: Result<OverlayLookup<'_>, FsError>,
)
    requires
        call_ensures(OverlayLookup::start, (&maps, &whiteouts, parent, name), result),
    ensures
        result is Ok <==> maps@.inode.contains_key(parent),
        result is Err ==> result->Err_0 is NotFound,
        result matches Ok(lookup) ==> {
            &&& hides(whiteouts@, lookup.path@) ==> lookup.asked == LookupAsk::Found(None)
            &&& lookup.name@ == name@
            &&& lookup.parent@ == maps@.inode[parent]
        },
{
    if let Ok(lookup) = result {
        assert(lookup.knows(
            maps@,
            maps@,
            Map::empty(),
            whiteouts@,
            Map::empty(),
            Map::empty(),
        ));
    }
}

} // verus!
