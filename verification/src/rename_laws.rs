//! What holds of moves and of the caches.
use crate::batcher_state::BatcherModel;
use crate::caches::CacheModel;
use crate::namespace_laws::{
    lemma_names_added, lemma_names_finite, lemma_names_taken, lemma_reaped_rest, lemma_reaped_tree,
    lemma_rows_rest, lemma_subdirs_added, lemma_subdirs_taken, lemma_taken_tree,
};
use crate::removal::Move;
use crate::stats::{ROOT_INO, Stats};
use crate::tables::{Tables, valid_name};
use vstd::prelude::*;

verus! {

/// The move names an entry of the tables and a destination that it may take.
pub open spec fn move_fits(t: Tables, m: Move) -> bool {
    let key = (m.parent, m.name@);
    let new_key = (m.new_parent, m.new_name@);
    &&& t.dentries.contains_key(key)
    &&& t.dentries[key] == m.source
    &&& m.source_is_dir == t.is_dir(m.source)
    &&& t.live_dir(m.new_parent)
    &&& valid_name(m.new_name@)
    &&& key != new_key
    &&& t.dentries.contains_key(new_key) ==> {
        let target = t.dentries[new_key];
        t.is_dir(target) == m.source_is_dir && !t.has_entries(target)
    }
}

/// What the destination of a move leads to.
pub open spec fn target_of(t: Tables, m: Move) -> Option<i64> {
    if t.dentries.contains_key((m.new_parent, m.new_name@)) {
        Some(t.dentries[(m.new_parent, m.new_name@)])
    } else {
        None
    }
}

/// The tables after a whole rename.
pub open spec fn renamed(
    t: Tables,
    m: Move,
    cleared_at: (i64, i64),
    now: (i64, i64),
    still_open: bool,
) -> Tables {
    t.made_way(m.new_parent, m.new_name@, target_of(t, m), cleared_at, still_open).moved(m, now)
}

proof fn lemma_made_way(
    t: Tables,
    chunk_size: nat,
    m: Move,
    now: (i64, i64),
    still_open: bool,
)
    requires
        t.sound(chunk_size),
        move_fits(t, m),
    ensures
        ({
            let u = t.made_way(m.new_parent, m.new_name@, target_of(t, m), now, still_open);
            &&& u.sound(chunk_size)
            &&& t.all_named() && !(target_of(t, m) is Some && m.source_is_dir) ==> u.all_named()
            &&& u.dentries == t.dentries.remove((m.new_parent, m.new_name@))
            &&& u.inodes.contains_key(m.source)
            &&& u.is_dir(m.source) == m.source_is_dir
            &&& u.live_dir(m.new_parent)
            &&& u.is_dir(m.parent)
        }),
{
    let key = (m.parent, m.name@);
    let new_key = (m.new_parent, m.new_name@);
    let u = t.made_way(m.new_parent, m.new_name@, target_of(t, m), now, still_open);
    assert(t.is_dir(m.parent));
    assert(t.inodes.contains_key(m.source));
    match target_of(t, m) {
        None => {
            assert(u.dentries =~= t.dentries.remove(new_key));
        },
        Some(target) => {
            let c = t.cleared(m.new_parent, m.new_name@, target, now);
            assert(t.inodes.contains_key(target));
            assert(target != m.new_parent) by {
                if target == m.new_parent {
                    assert(t.dentries.contains_key((target, m.new_name@)));
                }
            }
            lemma_names_taken(t, c, new_key);
            lemma_taken_tree(t, c, new_key);
            lemma_rows_rest(t, c, chunk_size);
            assert(c.names_of(m.new_parent) == t.names_of(m.new_parent));
            assert(c.names_of(m.source).contains(key));
            lemma_names_finite(c, m.source);
            lemma_names_finite(c, target);
            if c.inodes[target].nlink == 0 && !still_open {
                assert(c.inodes.contains_key(target));
                assert(!c.inodes[target].is_dir());
                lemma_reaped_tree(c, target);
                lemma_reaped_rest(c, target, chunk_size);
                assert(target != m.source);
                assert(u.names_of(m.new_parent) =~= c.names_of(m.new_parent));
                assert(target != m.parent) by {
                    assert(t.is_dir(m.parent));
                }
            }
            assert(u.dentries =~= t.dentries.remove(new_key));
            assert(u.names_of(m.new_parent) =~= t.names_of(m.new_parent));
        },
    }
}

/// Renaming keeps the tables sound, and every linked inode named unless a directory
/// was replaced: its inode stays behind without a name.
pub proof fn renaming_keeps_the_tables_sound(
    t: Tables,
    chunk_size: nat,
    m: Move,
    cleared_at: (i64, i64),
    now: (i64, i64),
    still_open: bool,
)
    requires
        t.sound(chunk_size),
        move_fits(t, m),
    ensures
        renamed(t, m, cleared_at, now, still_open).sound(chunk_size),
        t.all_named() && !(target_of(t, m) is Some && m.source_is_dir) ==> renamed(
            t,
            m,
            cleared_at,
            now,
            still_open,
        ).all_named(),
{
    let key = (m.parent, m.name@);
    let new_key = (m.new_parent, m.new_name@);
    let a = t.made_way(m.new_parent, m.new_name@, target_of(t, m), cleared_at, still_open);
    lemma_made_way(t, chunk_size, m, cleared_at, still_open);
    assert(a.dentries.contains_key(key) && a.dentries[key] == m.source);
    assert(!a.dentries.contains_key(new_key));
    let u = a.moved(m, now);
    let b = Tables { dentries: a.dentries.remove(key), ..u };
    assert(u.inodes.dom() =~= a.inodes.dom());
    assert forall|i: i64| #[trigger] u.inodes.contains_key(i) <==> a.inodes.contains_key(i) by {
        assert(u.inodes.dom().contains(i) <==> a.inodes.dom().contains(i));
    }
    assert forall|i: i64| #[trigger] a.inodes.contains_key(i) implies u.inodes[i].mode
        == a.inodes[i].mode by {}
    lemma_names_taken(a, b, key);
    lemma_subdirs_taken(a, b, key);
    assert(u.dentries =~= b.dentries.insert(new_key, m.source));
    lemma_names_added(b, u, new_key, m.source);
    lemma_subdirs_added(b, u, new_key, m.source);
    assert(u.names_of(m.source).len() == a.names_of(m.source).len());
    assert forall|i: i64| #[trigger] u.inodes.contains_key(i) implies (if u.inodes[i].is_dir() {
        u.dir_ok(i)
    } else {
        u.inodes[i].nlink == u.names_of(i).len()
    }) by {
        assert(a.inodes.contains_key(i));
        assert(u.names_of(i).len() == a.names_of(i).len());
        if u.inodes[i].is_dir() {
            assert(a.dir_ok(i));
            if i != ROOT_INO && u.names_of(i).len() == 0 {
                assert(i != m.new_parent);
                if u.has_entries(i) {
                    let n = choose|n: Seq<char>| u.dentries.contains_key((i, n));
                    assert(a.dentries.contains_key((i, n)));
                    assert(a.has_entries(i));
                }
                if i == m.parent {
                    assert(a.dentries.contains_key((i, m.name@)));
                    assert(a.has_entries(i));
                }
            }
        }
    }
    assert forall|k: (i64, Seq<char>)| #[trigger] u.dentries.contains_key(k) implies {
        &&& u.is_dir(k.0)
        &&& u.inodes.contains_key(u.dentries[k])
        &&& valid_name(k.1)
    } by {
        if k != new_key {
            assert(a.dentries.contains_key(k));
        }
    }
    assert(a.inodes.contains_key(ROOT_INO));
    lemma_rows_rest(a, u, chunk_size);
    if a.all_named() {
        assert forall|i: i64| #[trigger]
            u.inodes.contains_key(i) && i != ROOT_INO && u.inodes[i].nlink != 0 implies u.names_of(
            i,
        ).len() > 0 by {
            assert(a.inodes.contains_key(i));
            assert(u.names_of(i).len() == a.names_of(i).len());
            if a.inodes[i].nlink == 0 {
                assert(a.inodes[i].is_dir() ==> a.dir_ok(i));
            }
        }
    }
}

/// After a rename the new name leads to the moved inode, the old name to nothing, and
/// every other name where it led before. The moved inode keeps its type and contents.
pub proof fn renaming_moves_one_name(
    t: Tables,
    m: Move,
    cleared_at: (i64, i64),
    now: (i64, i64),
    still_open: bool,
)
    requires
        t.tree_ok(),
        move_fits(t, m),
    ensures
        renamed(t, m, cleared_at, now, still_open).dentries == t.dentries.remove(
            (m.parent, m.name@),
        ).insert((m.new_parent, m.new_name@), m.source),
        ({
            let u = renamed(t, m, cleared_at, now, still_open);
            &&& u.inodes.contains_key(m.source)
            &&& u.inodes[m.source].mode == t.inodes[m.source].mode
            &&& u.inodes[m.source].size == t.inodes[m.source].size
            &&& u.inodes[m.source].data_inline == t.inodes[m.source].data_inline
            &&& forall|k: (i64, i64)| #[trigger]
                t.chunks.contains_key(k) && k.0 == m.source ==> u.chunks.contains_key(k)
                    && u.chunks[k] == t.chunks[k]
            &&& u.symlinks.contains_key(m.source) == t.symlinks.contains_key(m.source)
            &&& t.symlinks.contains_key(m.source) ==> u.symlinks[m.source]
                == t.symlinks[m.source]
        }),
{
    let key = (m.parent, m.name@);
    let new_key = (m.new_parent, m.new_name@);
    let a = t.made_way(m.new_parent, m.new_name@, target_of(t, m), cleared_at, still_open);
    let u = renamed(t, m, cleared_at, now, still_open);
    assert(t.inodes.contains_key(m.source));
    match target_of(t, m) {
        None => {},
        Some(target) => {
            let c = t.cleared(m.new_parent, m.new_name@, target, cleared_at);
            lemma_names_taken(t, c, new_key);
            assert(t.inodes.contains_key(target));
            if target == m.source {
                assert(c.names_of(m.source).contains(key));
                lemma_names_finite(c, m.source);
                assert(!t.is_dir(target)) by {
                    if t.is_dir(target) {
                        lemma_names_finite(t, target);
                        assert(t.names_of(target).remove(new_key).contains(key));
                        assert(t.dir_ok(target));
                    }
                }
            }
        },
    }
    assert(a.dentries.contains_key(key));
    assert(u.dentries =~= t.dentries.remove(key).insert(new_key, m.source));
}

/// Whether a directory holds an entry for an inode.
pub open spec fn holds(dentries: Map<(i64, Seq<char>), i64>, dir: i64, ino: i64) -> bool {
    exists|name: Seq<char>| #[trigger]
        dentries.contains_key((dir, name)) && dentries[(dir, name)] == ino
}

/// Each step but the last is held by the next.
pub open spec fn ascends(dentries: Map<(i64, Seq<char>), i64>, steps: Seq<i64>) -> bool {
    forall|i: int|
        #![trigger steps[i]]
        0 <= i < steps.len() - 1 ==> holds(dentries, steps[i + 1], steps[i])
}

/// A way from an inode up to the root.
pub open spec fn trail(dentries: Map<(i64, Seq<char>), i64>, steps: Seq<i64>) -> bool {
    steps.len() > 0 && steps.last() == ROOT_INO && ascends(dentries, steps)
}

/// Whether an inode is reachable from the root.
pub open spec fn reachable(dentries: Map<(i64, Seq<char>), i64>, ino: i64) -> bool {
    exists|steps: Seq<i64>| #[trigger] trail(dentries, steps) && steps[0] == ino
}

proof fn lemma_holds_kept(
    before: Map<(i64, Seq<char>), i64>,
    after: Map<(i64, Seq<char>), i64>,
    key: (i64, Seq<char>),
    new_key: (i64, Seq<char>),
    source: i64,
    dir: i64,
    ino: i64,
)
    requires
        before.contains_key(key),
        before[key] == source,
        key != new_key,
        after == before.remove(key).insert(new_key, source),
        holds(before, dir, ino),
        ino != source,
        before.contains_key(new_key) ==> before[new_key] != ino,
    ensures
        holds(after, dir, ino),
{
    let name = choose|name: Seq<char>| #[trigger]
        before.contains_key((dir, name)) && before[(dir, name)] == ino;
    assert(after.contains_key((dir, name)) && after[(dir, name)] == ino);
}

/// A rename whose new parent has a way to the root that avoids the moved inode leaves
/// everything reachable that was, but for a replaced destination. So a directory never
/// becomes its own descendant.
pub proof fn renaming_keeps_everything_reachable(
    t: Tables,
    m: Move,
    cleared_at: (i64, i64),
    now: (i64, i64),
    still_open: bool,
    way: Seq<i64>,
    ino: i64,
)
    requires
        t.tree_ok(),
        move_fits(t, m),
        trail(t.dentries, way),
        way[0] == m.new_parent,
        !way.contains(m.source),
        reachable(t.dentries, ino),
        target_of(t, m) != Some(ino) || ino == m.source,
    ensures
        reachable(renamed(t, m, cleared_at, now, still_open).dentries, ino),
        reachable(renamed(t, m, cleared_at, now, still_open).dentries, m.source),
{
    let key = (m.parent, m.name@);
    let new_key = (m.new_parent, m.new_name@);
    let d = t.dentries;
    let e = renamed(t, m, cleared_at, now, still_open).dentries;
    renaming_moves_one_name(t, m, cleared_at, now, still_open);
    // The way of the new parent survives: nothing on it is moved or replaced.
    assert forall|i: int|
        #![trigger way[i]]
        0 <= i < way.len() - 1 implies holds(e, way[i + 1], way[i]) by {
        assert(holds(d, way[i + 1], way[i]));
        assert(way[i] != m.source) by {
            assert(way.contains(way[i]));
        }
        if d.contains_key(new_key) && d[new_key] == way[i] {
            lemma_target_not_above(t, m, way, i);
        }
        lemma_holds_kept(d, e, key, new_key, m.source, way[i + 1], way[i]);
    }
    assert(trail(e, way));
    let source_way = seq![m.source] + way;
    assert(e.contains_key((m.new_parent, m.new_name@)));
    assert(holds(e, m.new_parent, m.source));
    assert forall|i: int|
        #![trigger source_way[i]]
        0 <= i < source_way.len() - 1 implies holds(e, source_way[i + 1], source_way[i]) by {
        if i > 0 {
            assert(source_way[i] == way[i - 1]);
            assert(source_way[i + 1] == way[i]);
        }
    }
    assert(source_way.last() == way.last());
    assert(trail(e, source_way) && source_way[0] == m.source);
    let steps = choose|steps: Seq<i64>| #[trigger] trail(d, steps) && steps[0] == ino;
    lemma_trail_rerouted(t, m, e, steps, steps.len() as int, source_way);
}

/// A replaced destination holds nothing, so it lies on no way but at its foot.
proof fn lemma_target_not_above(t: Tables, m: Move, steps: Seq<i64>, i: int)
    requires
        t.tree_ok(),
        move_fits(t, m),
        ascends(t.dentries, steps),
        0 <= i < steps.len(),
        t.dentries.contains_key((m.new_parent, m.new_name@)),
        t.dentries[(m.new_parent, m.new_name@)] == steps[i],
    ensures
        i == 0,
        steps[0] != m.new_parent,
{
    let target = steps[i];
    if i > 0 {
        assert(steps[i - 1] == steps[i - 1]);
        assert(holds(t.dentries, steps[i - 1 + 1], steps[i - 1]));
        assert(t.has_entries(target));
    }
    if steps[0] == m.new_parent {
        assert(t.dentries.contains_key((target, m.new_name@)));
        assert(t.has_entries(target));
    }
}

/// Follows a way up to the first place where the moved inode stands and goes on from
/// there along `source_way`.
proof fn lemma_trail_rerouted(
    t: Tables,
    m: Move,
    e: Map<(i64, Seq<char>), i64>,
    steps: Seq<i64>,
    n: int,
    source_way: Seq<i64>,
)
    requires
        t.tree_ok(),
        move_fits(t, m),
        trail(t.dentries, steps),
        n == steps.len(),
        target_of(t, m) != Some(steps[0]) || steps[0] == m.source,
        e == t.dentries.remove((m.parent, m.name@)).insert(
            (m.new_parent, m.new_name@),
            m.source,
        ),
        trail(e, source_way),
        source_way[0] == m.source,
    ensures
        reachable(e, steps[0]),
    decreases n,
{
    let d = t.dentries;
    if steps[0] == m.source {
        assert(trail(e, source_way));
    } else if n == 1 {
        assert(ascends(e, steps));
        assert(trail(e, steps));
    } else {
        let rest = steps.skip(1);
        assert forall|i: int|
            #![trigger rest[i]]
            0 <= i < rest.len() - 1 implies holds(d, rest[i + 1], rest[i]) by {
            assert(rest[i] == steps[i + 1]);
            assert(holds(d, steps[i + 1 + 1], steps[i + 1]));
        }
        assert(rest.last() == steps.last());
        assert(target_of(t, m) != Some(rest[0])) by {
            if target_of(t, m) == Some(rest[0]) {
                lemma_target_not_above(t, m, steps, 1);
            }
        }
        lemma_trail_rerouted(t, m, e, rest, n - 1, source_way);
        let up = choose|up: Seq<i64>| #[trigger] trail(e, up) && up[0] == rest[0];
        let full = seq![steps[0]] + up;
        let foot: int = 0;
        assert(steps[foot] == steps[0]);
        assert(holds(d, steps[foot + 1], steps[foot]));
        lemma_holds_kept(
            d,
            e,
            (m.parent, m.name@),
            (m.new_parent, m.new_name@),
            m.source,
            steps[1],
            steps[0],
        );
        assert forall|i: int|
            #![trigger full[i]]
            0 <= i < full.len() - 1 implies holds(e, full[i + 1], full[i]) by {
            if i > 0 {
                assert(full[i] == up[i - 1]);
                assert(full[i + 1] == up[i]);
            }
        }
        assert(full.last() == up.last());
        assert(trail(e, full) && full[0] == steps[0]);
    }
}

/// A pending state that leaves the attributes of an inode as they are in the tables.
pub open spec fn nothing_pending(pending: BatcherModel, ino: i64) -> bool {
    forall|stats: Stats| #[trigger] pending.stats_over(ino, stats) == stats
}

/// Two pending states show the same attributes of every inode but one.
pub open spec fn same_but(before: BatcherModel, after: BatcherModel, ino: i64) -> bool {
    forall|other: i64, stats: Stats|
        other != ino ==> #[trigger] after.stats_over(other, stats) == before.stats_over(
            other,
            stats,
        )
}

/// After a creation the caches tell the truth, whether the times of the parent went to
/// the tables or wait in the batcher.
pub proof fn creation_keeps_the_caches_coherent(
    c: CacheModel,
    t: Tables,
    u: Tables,
    pending: BatcherModel,
    after: BatcherModel,
    parent: i64,
    name: Seq<char>,
    stats: Stats,
)
    requires
        c.coherent(t, pending),
        same_but(pending, after, parent),
        nothing_pending(after, stats.ino),
        !t.inodes.contains_key(stats.ino),
        t.inodes.contains_key(parent),
        u.dentries == t.dentries.insert((parent, name), stats.ino),
        u.inodes.contains_key(stats.ino),
        u.inodes[stats.ino].stats(stats.ino) == stats,
        forall|i: i64| #[trigger]
            t.inodes.contains_key(i) && i != parent ==> u.inodes.contains_key(i) && u.inodes[i]
                == t.inodes[i],
        !t.dentries.contains_key((parent, name)),
    ensures
        c.after_creation(parent, name, stats).coherent(u, after),
{
    let d = c.after_creation(parent, name, stats);
    assert forall|ino: i64| #[trigger] d.attrs.contains_key(ino) implies u.inodes.contains_key(
        ino,
    ) && d.attrs[ino] == after.stats_over(ino, u.inodes[ino].stats(ino)) by {
        if ino != stats.ino {
            assert(c.attrs.contains_key(ino));
            assert(t.inodes.contains_key(ino));
        }
    }
    assert forall|key: (i64, Seq<char>)| #[trigger] d.dentries.contains_key(key) implies u.dentries.contains_key(
        key,
    ) && u.dentries[key] == d.dentries[key] by {
        if key != (parent, name) {
            assert(c.dentries.contains_key(key));
        }
    }
}

/// After a removal the caches tell the truth, also when the pending state of the
/// removed inode was discarded.
pub proof fn removal_keeps_the_caches_coherent(
    c: CacheModel,
    t: Tables,
    u: Tables,
    pending: BatcherModel,
    after: BatcherModel,
    parent: i64,
    name: Seq<char>,
    ino: i64,
)
    requires
        c.coherent(t, pending),
        same_but(pending, after, ino),
        u.dentries == t.dentries.remove((parent, name)),
        forall|i: i64| #[trigger]
            t.inodes.contains_key(i) && i != parent && i != ino ==> u.inodes.contains_key(i)
                && u.inodes[i] == t.inodes[i],
    ensures
        c.after_removal(parent, name, ino).coherent(u, after),
{
    let d = c.after_removal(parent, name, ino);
    assert forall|i: i64| #[trigger] d.attrs.contains_key(i) implies u.inodes.contains_key(i)
        && d.attrs[i] == after.stats_over(i, u.inodes[i].stats(i)) by {
        assert(c.attrs.contains_key(i));
        assert(t.inodes.contains_key(i));
    }
    assert forall|key: (i64, Seq<char>)| #[trigger] d.dentries.contains_key(key) implies u.dentries.contains_key(
        key,
    ) && u.dentries[key] == d.dentries[key] by {
        assert(c.dentries.contains_key(key));
    }
}

/// After a rename the caches tell the truth.
pub proof fn renaming_keeps_the_caches_coherent(
    c: CacheModel,
    t: Tables,
    pending: BatcherModel,
    after: BatcherModel,
    m: Move,
    cleared_at: (i64, i64),
    now: (i64, i64),
    still_open: bool,
)
    requires
        c.coherent(t, pending),
        t.tree_ok(),
        move_fits(t, m),
        match target_of(t, m) {
            Some(target) => same_but(pending, after, target),
            None => pending == after,
        },
    ensures
        c.after_move(m, target_of(t, m)).coherent(
            renamed(t, m, cleared_at, now, still_open),
            after,
        ),
{
    let u = renamed(t, m, cleared_at, now, still_open);
    let d = c.after_move(m, target_of(t, m));
    renaming_moves_one_name(t, m, cleared_at, now, still_open);
    assert forall|i: i64| #[trigger] d.attrs.contains_key(i) implies u.inodes.contains_key(i)
        && d.attrs[i] == after.stats_over(i, u.inodes[i].stats(i)) by {
        assert(c.attrs.contains_key(i));
        assert(t.inodes.contains_key(i));
        assert(u.inodes.contains_key(i) && u.inodes[i] == t.inodes[i]);
    }
    assert forall|key: (i64, Seq<char>)| #[trigger] d.dentries.contains_key(key) implies u.dentries.contains_key(
        key,
    ) && u.dentries[key] == d.dentries[key] by {
        if key != (m.new_parent, m.new_name@) {
            assert(c.dentries.contains_key(key));
        }
    }
}

} // verus!
