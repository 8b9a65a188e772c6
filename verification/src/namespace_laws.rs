//! What holds of the namespace operations as a whole.
use crate::namespace::NewInode;
use crate::stats::{ROOT_INO, S_IFDIR, S_IFLNK, S_IFMT, S_IFREG, mode_is};
use crate::tables::{InodeRow, STORAGE_CHUNKED, STORAGE_INLINE, Tables, valid_name};
use vstd::prelude::*;

verus! {

impl Tables {
    /// A directory that is part of the tree.
    pub open spec fn live_dir(self, ino: i64) -> bool {
        self.is_dir(ino) && (ino == ROOT_INO || self.names_of(ino).len() > 0)
    }
}

pub proof fn lemma_names_finite(t: Tables, ino: i64)
    requires
        t.dentries.dom().finite(),
    ensures
        t.names_of(ino).finite(),
        t.subdirs(ino).finite(),
        t.names_of(ino).len() > 0 <==> exists|key: (i64, Seq<char>)|
            t.names_of(ino).contains(key),
{
    vstd::set_lib::lemma_set_subset_finite(t.dentries.dom(), t.names_of(ino));
    vstd::set_lib::lemma_set_subset_finite(t.dentries.dom(), t.subdirs(ino));
    if t.names_of(ino).len() > 0 {
        assert(t.names_of(ino).contains(t.names_of(ino).choose()));
    }
    if exists|key: (i64, Seq<char>)| t.names_of(ino).contains(key) {
        let key = choose|key: (i64, Seq<char>)| t.names_of(ino).contains(key);
        assert(t.names_of(ino).contains(key));
    }
}

/// Names after an entry was added to the tables `t` that have none of that name.
pub proof fn lemma_names_added(t: Tables, u: Tables, key: (i64, Seq<char>), ino: i64)
    requires
        t.dentries.dom().finite(),
        !t.dentries.contains_key(key),
        u.dentries == t.dentries.insert(key, ino),
    ensures
        u.dentries.dom().finite(),
        u.names_of(ino) == t.names_of(ino).insert(key),
        u.names_of(ino).len() == t.names_of(ino).len() + 1,
        forall|other: i64|
            other != ino ==> #[trigger] u.names_of(other) == t.names_of(other),
{
    lemma_names_finite(t, ino);
    assert(u.names_of(ino) =~= t.names_of(ino).insert(key));
    assert forall|other: i64| other != ino implies #[trigger] u.names_of(other) == t.names_of(
        other,
    ) by {
        assert(u.names_of(other) =~= t.names_of(other));
    }
}

/// Names after an entry was taken from the tables.
pub proof fn lemma_names_taken(t: Tables, u: Tables, key: (i64, Seq<char>))
    requires
        t.dentries.dom().finite(),
        t.dentries.contains_key(key),
        u.dentries == t.dentries.remove(key),
    ensures
        u.dentries.dom().finite(),
        u.names_of(t.dentries[key]) == t.names_of(t.dentries[key]).remove(key),
        u.names_of(t.dentries[key]).len() == t.names_of(t.dentries[key]).len() - 1,
        forall|other: i64|
            other != t.dentries[key] ==> #[trigger] u.names_of(other) == t.names_of(other),
{
    let ino = t.dentries[key];
    lemma_names_finite(t, ino);
    assert(t.names_of(ino).contains(key));
    assert(u.names_of(ino) =~= t.names_of(ino).remove(key));
    assert forall|other: i64| other != ino implies #[trigger] u.names_of(other) == t.names_of(
        other,
    ) by {
        assert(u.names_of(other) =~= t.names_of(other));
    }
}

/// Subdirectories after an entry was added, when no target changed its type.
pub proof fn lemma_subdirs_added(t: Tables, u: Tables, key: (i64, Seq<char>), ino: i64)
    requires
        t.dentries.dom().finite(),
        !t.dentries.contains_key(key),
        u.dentries == t.dentries.insert(key, ino),
        forall|k: (i64, Seq<char>)| #[trigger]
            t.dentries.contains_key(k) ==> u.is_dir(t.dentries[k]) == t.is_dir(t.dentries[k]),
    ensures
        forall|dir: i64|
            (#[trigger] u.subdirs(dir)).len() == t.subdirs(dir).len() + if dir == key.0
                && u.is_dir(ino) {
                1int
            } else {
                0int
            },
{
    assert forall|dir: i64|
        (#[trigger] u.subdirs(dir)).len() == t.subdirs(dir).len() + if dir == key.0 && u.is_dir(
            ino,
        ) {
            1int
        } else {
            0int
        } by {
        lemma_names_finite(t, dir);
        if dir == key.0 && u.is_dir(ino) {
            assert(u.subdirs(dir) =~= t.subdirs(dir).insert(key));
        } else {
            assert(u.subdirs(dir) =~= t.subdirs(dir));
        }
    }
}

/// Subdirectories after an entry was taken, when no other target changed its type.
pub proof fn lemma_subdirs_taken(t: Tables, u: Tables, key: (i64, Seq<char>))
    requires
        t.dentries.dom().finite(),
        t.dentries.contains_key(key),
        u.dentries == t.dentries.remove(key),
        forall|k: (i64, Seq<char>)| #[trigger]
            t.dentries.contains_key(k) && k != key ==> u.is_dir(t.dentries[k]) == t.is_dir(
                t.dentries[k],
            ),
    ensures
        forall|dir: i64|
            (#[trigger] u.subdirs(dir)).len() == t.subdirs(dir).len() - if dir == key.0
                && t.is_dir(t.dentries[key]) {
                1int
            } else {
                0int
            },
{
    assert forall|dir: i64|
        (#[trigger] u.subdirs(dir)).len() == t.subdirs(dir).len() - if dir == key.0 && t.is_dir(
            t.dentries[key],
        ) {
            1int
        } else {
            0int
        } by {
        lemma_names_finite(t, dir);
        if dir == key.0 && t.is_dir(t.dentries[key]) {
            assert(t.subdirs(dir).contains(key));
            assert(u.subdirs(dir) =~= t.subdirs(dir).remove(key));
        } else {
            assert(u.subdirs(dir) =~= t.subdirs(dir));
        }
    }
}

pub proof fn lemma_no_names(t: Tables, ino: i64)
    requires
        t.tree_ok(),
        !t.inodes.contains_key(ino),
    ensures
        t.names_of(ino) =~= Set::<(i64, Seq<char>)>::empty(),
        t.names_of(ino).len() == 0,
{
    assert forall|key: (i64, Seq<char>)| !t.names_of(ino).contains(key) by {
        if t.names_of(ino).contains(key) {
            assert(t.dentries.contains_key(key));
        }
    }
    assert(t.names_of(ino) =~= Set::<(i64, Seq<char>)>::empty());
}

/// Two rows store the same contents for the same type of inode.
pub open spec fn same_contents(a: InodeRow, b: InodeRow) -> bool {
    &&& (a.mode & S_IFMT) == (b.mode & S_IFMT)
    &&& a.data_inline == b.data_inline
    &&& a.storage_kind == b.storage_kind
    &&& a.size == b.size
}

/// A row whose contents are stored one way.
pub open spec fn row_storage_ok(row: InodeRow) -> bool {
    match row.data_inline {
        Some(data) => row.storage_kind == STORAGE_INLINE && data.len() == row.size && mode_is(
            row.mode,
            S_IFREG,
        ),
        None => row.storage_kind == STORAGE_CHUNKED,
    }
}

/// Links and storage after rows kept their contents, some inodes went with all that
/// belongs to them and `fresh` may have come.
pub proof fn lemma_contents_kept(t: Tables, u: Tables, chunk_size: nat, fresh: i64)
    requires
        t.symlinks_ok(),
        t.storage_ok(chunk_size),
        forall|i: i64| #[trigger]
            u.inodes.contains_key(i) && i != fresh ==> {
                &&& t.inodes.contains_key(i)
                &&& same_contents(t.inodes[i], u.inodes[i])
                &&& u.symlinks.contains_key(i) == t.symlinks.contains_key(i)
            },
        forall|i: i64| #[trigger] u.symlinks.contains_key(i) ==> u.inodes.contains_key(i),
        u.inodes.contains_key(fresh) ==> row_storage_ok(u.inodes[fresh]),
        u.inodes.contains_key(fresh) ==> (u.symlinks.contains_key(fresh) <==> mode_is(
            u.inodes[fresh].mode,
            S_IFLNK,
        )),
        forall|k: (i64, i64)| #[trigger]
            u.chunks.contains_key(k) ==> {
                &&& t.chunks.contains_key(k)
                &&& u.chunks[k] == t.chunks[k]
                &&& u.inodes.contains_key(k.0)
                &&& k.0 != fresh
            },
    ensures
        u.symlinks_ok(),
        u.storage_ok(chunk_size),
{
    assert forall|i: i64| #[trigger] u.symlinks.contains_key(i) implies u.inodes.contains_key(i)
        && mode_is(u.inodes[i].mode, S_IFLNK) by {
        assert(u.inodes.contains_key(i));
        if i != fresh {
            assert(t.symlinks.contains_key(i));
        }
    }
    assert forall|i: i64| #[trigger]
        u.inodes.contains_key(i) && mode_is(u.inodes[i].mode, S_IFLNK) implies u.symlinks.contains_key(
        i,
    ) by {
        if i != fresh {
            assert(t.inodes.contains_key(i));
        }
    }
    assert forall|i: i64| #[trigger] u.inodes.contains_key(i) implies row_storage_ok(
        u.inodes[i],
    ) by {
        if i != fresh {
            assert(t.inodes.contains_key(i));
            assert(row_storage_ok(t.inodes[i]));
        }
    }
    assert forall|k: (i64, i64)| #[trigger] u.chunks.contains_key(k) implies {
        &&& u.inodes.contains_key(k.0)
        &&& u.inodes[k.0].storage_kind == STORAGE_CHUNKED
        &&& mode_is(u.inodes[k.0].mode, S_IFREG)
        &&& k.1 >= 0
        &&& u.chunks[k].len() <= chunk_size
    } by {
        assert(t.chunks.contains_key(k));
        assert(u.inodes.contains_key(k.0));
    }
}

/// Making a directory keeps the tables sound and every linked inode named.
pub proof fn making_a_directory_keeps_the_tables_sound(
    t: Tables,
    chunk_size: nat,
    parent: i64,
    name: Seq<char>,
    ino: i64,
    row: NewInode,
)
    requires
        t.sound(chunk_size),
        t.live_dir(parent),
        valid_name(name),
        !t.dentries.contains_key((parent, name)),
        !t.inodes.contains_key(ino),
        mode_is(row.mode, S_IFDIR),
        !row.inline,
    ensures
        t.made_dir(parent, name, ino, row).sound(chunk_size),
        t.all_named() ==> t.made_dir(parent, name, ino, row).all_named(),
{
    let u = t.made_dir(parent, name, ino, row);
    let key = (parent, name);
    assert(ino != parent && ino != ROOT_INO);
    lemma_no_names(t, ino);
    lemma_names_added(t, u, key, ino);
    lemma_subdirs_added(t, u, key, ino);
    assert(u.is_dir(ino));
    assert forall|i: i64| #[trigger] u.inodes.contains_key(i) implies (if u.inodes[i].is_dir() {
        u.dir_ok(i)
    } else {
        u.inodes[i].nlink == u.names_of(i).len()
    }) by {
        if i == ino {
            assert(t.subdirs(ino) =~= Set::<(i64, Seq<char>)>::empty()) by {
                assert forall|k: (i64, Seq<char>)| !t.subdirs(ino).contains(k) by {
                    if t.subdirs(ino).contains(k) {
                        assert(t.dentries.contains_key(k));
                    }
                }
            }
            assert(u.subdirs(ino).len() == 0);
        } else {
            assert(t.inodes.contains_key(i));
            if u.inodes[i].is_dir() && i != ROOT_INO && u.names_of(i).len() == 0 {
                assert(i != parent);
                if u.has_entries(i) {
                    let n = choose|n: Seq<char>| u.dentries.contains_key((i, n));
                    assert(t.dentries.contains_key((i, n)));
                }
            }
        }
    }
    assert forall|k: (i64, Seq<char>)| #[trigger] u.dentries.contains_key(k) implies {
        &&& u.is_dir(k.0)
        &&& u.inodes.contains_key(u.dentries[k])
        &&& valid_name(k.1)
    } by {
        if k != key {
            assert(t.dentries.contains_key(k));
        }
    }
    assert(u.tree_ok());
    lemma_dir_is_no_link(row.mode);
    lemma_fresh_rest(t, u, chunk_size, ino);
    assert forall|i: i64| #[trigger]
        t.all_named() && u.inodes.contains_key(i) && i != ROOT_INO && u.inodes[i].nlink
            != 0 implies u.names_of(i).len() > 0 by {
        if i != ino {
            assert(t.inodes.contains_key(i));
        }
    }
}

pub proof fn lemma_dir_is_no_link(mode: u32)
    requires
        mode_is(mode, S_IFDIR),
    ensures
        !mode_is(mode, S_IFLNK),
        !mode_is(mode, S_IFREG),
{
}

/// Links and storage after a fresh inode without contents came and others kept theirs.
pub proof fn lemma_fresh_rest(t: Tables, u: Tables, chunk_size: nat, fresh: i64)
    requires
        t.symlinks_ok(),
        t.storage_ok(chunk_size),
        !t.inodes.contains_key(fresh),
        u.symlinks == t.symlinks || u.symlinks == t.symlinks.insert(fresh, u.symlinks[fresh]),
        u.chunks == t.chunks,
        u.inodes.dom() =~= t.inodes.dom().insert(fresh),
        row_storage_ok(u.inodes[fresh]),
        u.symlinks.contains_key(fresh) <==> mode_is(u.inodes[fresh].mode, S_IFLNK),
        forall|i: i64| #[trigger]
            t.inodes.contains_key(i) ==> same_contents(t.inodes[i], u.inodes[i]),
    ensures
        u.symlinks_ok(),
        u.storage_ok(chunk_size),
{
    assert forall|i: i64| #[trigger] u.symlinks.contains_key(i) implies u.inodes.contains_key(
        i,
    ) by {
        if i != fresh {
            assert(t.symlinks.contains_key(i));
            assert(t.inodes.contains_key(i));
        } else {
            assert(u.inodes.dom().contains(fresh));
        }
    }
    assert forall|i: i64| #[trigger] u.inodes.contains_key(i) && i != fresh implies {
        &&& t.inodes.contains_key(i)
        &&& same_contents(t.inodes[i], u.inodes[i])
        &&& u.symlinks.contains_key(i) == t.symlinks.contains_key(i)
    } by {
        assert(u.inodes.dom().contains(i));
        assert(t.inodes.dom().contains(i));
        assert(t.inodes.contains_key(i));
    }
    assert forall|k: (i64, i64)| #[trigger] u.chunks.contains_key(k) implies {
        &&& t.chunks.contains_key(k)
        &&& u.chunks[k] == t.chunks[k]
        &&& u.inodes.contains_key(k.0)
        &&& k.0 != fresh
    } by {
        assert(t.chunks.contains_key(k));
        assert(t.inodes.contains_key(k.0));
        assert(u.inodes.dom().contains(k.0));
    }
    lemma_contents_kept(t, u, chunk_size, fresh);
}

/// The tree after an entry for a fresh inode that is no directory.
pub proof fn lemma_node_tree(t: Tables, u: Tables, parent: i64, name: Seq<char>, ino: i64)
    requires
        t.tree_ok(),
        t.live_dir(parent),
        valid_name(name),
        !t.dentries.contains_key((parent, name)),
        !t.inodes.contains_key(ino),
        u.dentries == t.dentries.insert((parent, name), ino),
        u.inodes.dom() =~= t.inodes.dom().insert(ino),
        !u.inodes[ino].is_dir(),
        u.inodes[ino].nlink == 1,
        forall|i: i64| #[trigger]
            t.inodes.contains_key(i) ==> u.inodes[i].mode == t.inodes[i].mode
                && u.inodes[i].nlink == t.inodes[i].nlink,
    ensures
        u.tree_ok(),
        t.all_named() ==> u.all_named(),
{
    let key = (parent, name);
    lemma_no_names(t, ino);
    lemma_names_added(t, u, key, ino);
    assert forall|i: i64| #[trigger] t.inodes.contains_key(i) implies u.inodes.contains_key(i) by {
        assert(u.inodes.dom().contains(i));
    }
    assert forall|i: i64| #[trigger] u.inodes.contains_key(i) && i != ino implies t.inodes.contains_key(
        i,
    ) by {
        assert(u.inodes.dom().contains(i));
    }
    assert(t.inodes.contains_key(parent));
    lemma_subdirs_added(t, u, key, ino);
    assert forall|i: i64| #[trigger] u.inodes.contains_key(i) implies (if u.inodes[i].is_dir() {
        u.dir_ok(i)
    } else {
        u.inodes[i].nlink == u.names_of(i).len()
    }) by {
        if i != ino {
            assert(t.inodes.contains_key(i));
            if u.inodes[i].is_dir() && i != ROOT_INO && u.names_of(i).len() == 0 {
                assert(i != parent);
                if u.has_entries(i) {
                    let n = choose|n: Seq<char>| u.dentries.contains_key((i, n));
                    assert(t.dentries.contains_key((i, n)));
                }
            }
        }
    }
    assert forall|k: (i64, Seq<char>)| #[trigger] u.dentries.contains_key(k) implies {
        &&& u.is_dir(k.0)
        &&& u.inodes.contains_key(u.dentries[k])
        &&& valid_name(k.1)
    } by {
        if k != key {
            assert(t.dentries.contains_key(k));
        } else {
            assert(u.inodes.dom().contains(ino));
        }
    }
    assert(u.inodes.contains_key(ROOT_INO));
    assert forall|i: i64| #[trigger]
        t.all_named() && u.inodes.contains_key(i) && i != ROOT_INO && u.inodes[i].nlink
            != 0 implies u.names_of(i).len() > 0 by {
        if i != ino {
            assert(t.inodes.contains_key(i));
        }
    }
}

/// Making a file or another node that is neither a directory nor a symbolic link
/// keeps the tables sound and every linked inode named.
pub proof fn making_a_node_keeps_the_tables_sound(
    t: Tables,
    chunk_size: nat,
    parent: i64,
    name: Seq<char>,
    ino: i64,
    row: NewInode,
)
    requires
        t.sound(chunk_size),
        t.live_dir(parent),
        valid_name(name),
        !t.dentries.contains_key((parent, name)),
        !t.inodes.contains_key(ino),
        !mode_is(row.mode, S_IFDIR),
        !mode_is(row.mode, S_IFLNK),
        row.inline ==> mode_is(row.mode, S_IFREG) && row.size == 0,
    ensures
        t.made_node(parent, name, ino, row).sound(chunk_size),
        t.all_named() ==> t.made_node(parent, name, ino, row).all_named(),
        row.nlink == 1 ==> {
            let stashed = t.with_inode(ino, row.row()).with_entry(parent, name, ino);
            &&& stashed.sound(chunk_size)
            &&& t.all_named() ==> stashed.all_named()
        },
{
    let u = t.made_node(parent, name, ino, row);
    assert(!t.symlinks.contains_key(ino)) by {
        if t.symlinks.contains_key(ino) {
            assert(t.inodes.contains_key(ino));
        }
    }
    lemma_node_tree(t, u, parent, name, ino);
    lemma_fresh_rest(t, u, chunk_size, ino);
    if row.nlink == 1 {
        let stashed = t.with_inode(ino, row.row()).with_entry(parent, name, ino);
        lemma_node_tree(t, stashed, parent, name, ino);
        lemma_fresh_rest(t, stashed, chunk_size, ino);
    }
}

/// Making a symbolic link keeps the tables sound and every linked inode named.
pub proof fn making_a_symlink_keeps_the_tables_sound(
    t: Tables,
    chunk_size: nat,
    parent: i64,
    name: Seq<char>,
    target: Seq<char>,
    ino: i64,
    row: NewInode,
)
    requires
        t.sound(chunk_size),
        t.live_dir(parent),
        valid_name(name),
        !t.dentries.contains_key((parent, name)),
        !t.inodes.contains_key(ino),
        mode_is(row.mode, S_IFLNK),
        !row.inline,
    ensures
        t.made_node(parent, name, ino, row).with_symlink(ino, target).sound(chunk_size),
        t.all_named() ==> t.made_node(parent, name, ino, row).with_symlink(
            ino,
            target,
        ).all_named(),
{
    let u = t.made_node(parent, name, ino, row).with_symlink(ino, target);
    lemma_node_tree(t, u, parent, name, ino);
    lemma_fresh_rest(t, u, chunk_size, ino);
}

/// A further name keeps the tables sound and every linked inode named.
pub proof fn linking_keeps_the_tables_sound(
    t: Tables,
    chunk_size: nat,
    ino: i64,
    parent: i64,
    name: Seq<char>,
    now: (i64, i64),
)
    requires
        t.sound(chunk_size),
        t.live_dir(parent),
        valid_name(name),
        !t.dentries.contains_key((parent, name)),
        t.inodes.contains_key(ino),
        !t.inodes[ino].is_dir(),
    ensures
        t.linked(ino, parent, name, now).sound(chunk_size),
        t.all_named() ==> t.linked(ino, parent, name, now).all_named(),
{
    let u = t.linked(ino, parent, name, now);
    let key = (parent, name);
    lemma_names_added(t, u, key, ino);
    lemma_subdirs_added(t, u, key, ino);
    assert forall|i: i64| #[trigger] u.inodes.contains_key(i) implies (if u.inodes[i].is_dir() {
        u.dir_ok(i)
    } else {
        u.inodes[i].nlink == u.names_of(i).len()
    }) by {
        assert(t.inodes.contains_key(i));
        if u.inodes[i].is_dir() && i != ROOT_INO && u.names_of(i).len() == 0 {
            assert(i != parent);
            if u.has_entries(i) {
                let n = choose|n: Seq<char>| u.dentries.contains_key((i, n));
                assert(t.dentries.contains_key((i, n)));
            }
        }
    }
    assert forall|k: (i64, Seq<char>)| #[trigger] u.dentries.contains_key(k) implies {
        &&& u.is_dir(k.0)
        &&& u.inodes.contains_key(u.dentries[k])
        &&& valid_name(k.1)
    } by {
        if k != key {
            assert(t.dentries.contains_key(k));
        }
    }
    lemma_rows_rest(t, u, chunk_size);
    assert forall|i: i64| #[trigger]
        t.all_named() && u.inodes.contains_key(i) && i != ROOT_INO && u.inodes[i].nlink
            != 0 implies u.names_of(i).len() > 0 by {
        assert(t.inodes.contains_key(i));
        if i == ino {
            assert(u.names_of(ino).len() == t.names_of(ino).len() + 1);
        }
    }
}

/// Links and storage after rows kept their contents and none came or went.
pub proof fn lemma_rows_rest(t: Tables, u: Tables, chunk_size: nat)
    requires
        t.symlinks_ok(),
        t.storage_ok(chunk_size),
        u.symlinks == t.symlinks,
        u.chunks == t.chunks,
        u.inodes.dom() =~= t.inodes.dom(),
        forall|i: i64| #[trigger]
            t.inodes.contains_key(i) ==> same_contents(t.inodes[i], u.inodes[i]),
    ensures
        u.symlinks_ok(),
        u.storage_ok(chunk_size),
{
    assert forall|i: i64| #[trigger] u.inodes.contains_key(i) <==> t.inodes.contains_key(i) by {
        assert(u.inodes.dom().contains(i) <==> t.inodes.dom().contains(i));
    }
    assert forall|i: i64| #[trigger] u.symlinks.contains_key(i) implies u.inodes.contains_key(i)
        && mode_is(u.inodes[i].mode, S_IFLNK) by {
        assert(t.symlinks.contains_key(i));
        assert(t.inodes.contains_key(i));
    }
    assert forall|i: i64| #[trigger]
        u.inodes.contains_key(i) && mode_is(u.inodes[i].mode, S_IFLNK) implies u.symlinks.contains_key(
        i,
    ) by {
        assert(t.inodes.contains_key(i));
    }
    assert forall|i: i64| #[trigger] u.inodes.contains_key(i) implies row_storage_ok(
        u.inodes[i],
    ) by {
        assert(t.inodes.contains_key(i));
        assert(row_storage_ok(t.inodes[i]));
    }
    assert forall|k: (i64, i64)| #[trigger] u.chunks.contains_key(k) implies {
        &&& u.inodes.contains_key(k.0)
        &&& u.inodes[k.0].storage_kind == STORAGE_CHUNKED
        &&& mode_is(u.inodes[k.0].mode, S_IFREG)
        &&& k.1 >= 0
        &&& u.chunks[k].len() <= chunk_size
    } by {
        assert(t.chunks.contains_key(k));
        assert(t.inodes.contains_key(k.0));
    }
}

/// Links and storage after one inode was reaped.
pub proof fn lemma_reaped_rest(t: Tables, ino: i64, chunk_size: nat)
    requires
        t.symlinks_ok(),
        t.storage_ok(chunk_size),
    ensures
        t.reaped(ino).symlinks_ok(),
        t.reaped(ino).storage_ok(chunk_size),
{
    let u = t.reaped(ino);
    assert forall|i: i64| #[trigger] u.symlinks.contains_key(i) implies u.inodes.contains_key(i)
        && mode_is(u.inodes[i].mode, S_IFLNK) by {
        assert(t.symlinks.contains_key(i));
        assert(t.inodes.contains_key(i));
    }
    assert forall|i: i64| #[trigger]
        u.inodes.contains_key(i) && mode_is(u.inodes[i].mode, S_IFLNK) implies u.symlinks.contains_key(
        i,
    ) by {
        assert(t.inodes.contains_key(i));
    }
    assert forall|i: i64| #[trigger] u.inodes.contains_key(i) implies row_storage_ok(
        u.inodes[i],
    ) by {
        assert(t.inodes.contains_key(i));
        assert(row_storage_ok(t.inodes[i]));
    }
    assert forall|k: (i64, i64)| #[trigger] u.chunks.contains_key(k) implies {
        &&& u.inodes.contains_key(k.0)
        &&& u.inodes[k.0].storage_kind == STORAGE_CHUNKED
        &&& mode_is(u.inodes[k.0].mode, S_IFREG)
        &&& k.1 >= 0
        &&& u.chunks[k].len() <= chunk_size
    } by {
        assert(t.chunks.contains_key(k));
        assert(t.inodes.contains_key(k.0));
    }
}

/// The tree after an inode that nothing leads to was reaped.
pub proof fn lemma_reaped_tree(t: Tables, ino: i64)
    requires
        t.tree_ok(),
        t.inodes.contains_key(ino),
        !t.inodes[ino].is_dir(),
        t.names_of(ino).len() == 0,
    ensures
        t.reaped(ino).tree_ok(),
        t.all_named() ==> t.reaped(ino).all_named(),
{
    let u = t.reaped(ino);
    lemma_names_finite(t, ino);
    assert forall|k: (i64, Seq<char>)| #[trigger] u.dentries.contains_key(k) implies {
        &&& u.is_dir(k.0)
        &&& u.inodes.contains_key(u.dentries[k])
        &&& valid_name(k.1)
    } by {
        assert(t.dentries.contains_key(k));
        if t.dentries[k] == ino {
            assert(t.names_of(ino).contains(k));
        }
    }
    assert forall|i: i64| #[trigger] u.inodes.contains_key(i) implies (if u.inodes[i].is_dir() {
        u.dir_ok(i)
    } else {
        u.inodes[i].nlink == u.names_of(i).len()
    }) by {
        assert(t.inodes.contains_key(i));
        assert(u.names_of(i) =~= t.names_of(i));
        assert(u.subdirs(i) =~= t.subdirs(i)) by {
            assert forall|k: (i64, Seq<char>)| u.subdirs(i).contains(k) == t.subdirs(i).contains(
                k,
            ) by {
                if t.dentries.contains_key(k) {
                    assert(u.dentries.contains_key(k));
                }
            }
        }
        assert(u.has_entries(i) == t.has_entries(i));
    }
    assert forall|i: i64| #[trigger]
        t.all_named() && u.inodes.contains_key(i) && i != ROOT_INO && u.inodes[i].nlink
            != 0 implies u.names_of(i).len() > 0 by {
        assert(t.inodes.contains_key(i));
        assert(u.names_of(i) =~= t.names_of(i));
    }
}

/// The tree after a name of an inode went and the inode has one link less; the links
/// of other inodes stay but for the parent, which may lose that of a directory.
pub proof fn lemma_taken_tree(t: Tables, u: Tables, key: (i64, Seq<char>))
    requires
        t.tree_ok(),
        t.dentries.contains_key(key),
        u.dentries == t.dentries.remove(key),
        u.inodes.dom() =~= t.inodes.dom(),
        t.is_dir(t.dentries[key]) ==> !t.has_entries(t.dentries[key]),
        forall|i: i64| #[trigger]
            t.inodes.contains_key(i) ==> {
                &&& u.inodes[i].mode == t.inodes[i].mode
                &&& if i == t.dentries[key] {
                    u.inodes[i].nlink == t.inodes[i].nlink - 1
                } else if i == key.0 && t.is_dir(t.dentries[key]) {
                    u.inodes[i].nlink >= t.inodes[i].nlink - 1
                } else {
                    u.inodes[i].nlink == t.inodes[i].nlink
                }
            },
    ensures
        u.tree_ok(),
        t.all_named() && !t.is_dir(t.dentries[key]) ==> u.all_named(),
{
    let ino = t.dentries[key];
    assert forall|i: i64| #[trigger] u.inodes.contains_key(i) <==> t.inodes.contains_key(i) by {
        assert(u.inodes.dom().contains(i) <==> t.inodes.dom().contains(i));
    }
    assert(t.inodes.contains_key(ino) && t.inodes.contains_key(key.0));
    lemma_names_taken(t, u, key);
    lemma_subdirs_taken(t, u, key);
    if t.is_dir(ino) {
        assert(key.0 != ino) by {
            if key.0 == ino {
                assert(t.dentries.contains_key((ino, key.1)));
            }
        }
        assert(t.names_of(ino).contains(key));
        lemma_names_finite(t, ino);
        assert(ino != ROOT_INO);
        assert(t.subdirs(ino) =~= Set::<(i64, Seq<char>)>::empty()) by {
            assert forall|k: (i64, Seq<char>)| !t.subdirs(ino).contains(k) by {
                if t.subdirs(ino).contains(k) {
                    assert(t.dentries.contains_key((ino, k.1)));
                }
            }
        }
    }
    assert forall|k: (i64, Seq<char>)| #[trigger] u.dentries.contains_key(k) implies {
        &&& u.is_dir(k.0)
        &&& u.inodes.contains_key(u.dentries[k])
        &&& valid_name(k.1)
    } by {
        assert(t.dentries.contains_key(k));
        assert(t.inodes.contains_key(t.dentries[k]));
    }
    assert forall|i: i64| #[trigger] u.inodes.contains_key(i) implies (if u.inodes[i].is_dir() {
        u.dir_ok(i)
    } else {
        u.inodes[i].nlink == u.names_of(i).len()
    }) by {
        assert(t.inodes.contains_key(i));
        if u.inodes[i].is_dir() {
            assert(t.dir_ok(i));
            if u.has_entries(i) {
                let n = choose|n: Seq<char>| u.dentries.contains_key((i, n));
                assert(t.dentries.contains_key((i, n)));
                assert(t.has_entries(i));
            }
            if i == key.0 {
                assert(t.dentries.contains_key((i, key.1)));
                assert(t.has_entries(i));
            }
        }
    }
    assert(t.inodes.contains_key(ROOT_INO));
    if t.all_named() && !t.is_dir(ino) {
        assert forall|i: i64| #[trigger]
            u.inodes.contains_key(i) && i != ROOT_INO && u.inodes[i].nlink != 0 implies u.names_of(
            i,
        ).len() > 0 by {
            assert(t.inodes.contains_key(i));
        }
    }
}

/// Unlinking keeps the tables sound and every linked inode named.
pub proof fn unlinking_keeps_the_tables_sound(
    t: Tables,
    chunk_size: nat,
    parent: i64,
    name: Seq<char>,
    now: (i64, i64),
    still_open: bool,
)
    requires
        t.sound(chunk_size),
        t.dentries.contains_key((parent, name)),
        !t.is_dir(t.dentries[(parent, name)]),
    ensures
        t.unlinked(parent, name, t.dentries[(parent, name)], now, still_open).sound(chunk_size),
        t.all_named() ==> t.unlinked(
            parent,
            name,
            t.dentries[(parent, name)],
            now,
            still_open,
        ).all_named(),
{
    let key = (parent, name);
    let ino = t.dentries[key];
    let u = t.detached(parent, name, ino, now);
    assert(t.inodes.contains_key(ino) && t.is_dir(parent));
    lemma_taken_tree(t, u, key);
    lemma_rows_rest(t, u, chunk_size);
    if u.inodes[ino].nlink == 0 && !still_open {
        assert(u.inodes.contains_key(ino));
        lemma_reaped_tree(u, ino);
        lemma_reaped_rest(u, ino, chunk_size);
    }
}

/// Removing an empty directory keeps the tables sound. The inode of the directory
/// stays behind with one link and no name.
pub proof fn removing_a_directory_keeps_the_tables_sound(
    t: Tables,
    chunk_size: nat,
    parent: i64,
    name: Seq<char>,
    now: (i64, i64),
)
    requires
        t.sound(chunk_size),
        t.dentries.contains_key((parent, name)),
        t.is_dir(t.dentries[(parent, name)]),
        !t.has_entries(t.dentries[(parent, name)]),
    ensures
        ({
            let ino = t.dentries[(parent, name)];
            let u = t.removed_dir(parent, name, ino, now);
            &&& u.sound(chunk_size)
            &&& u.inodes.contains_key(ino)
            &&& u.inodes[ino].nlink >= 1
            &&& u.names_of(ino).len() == 0
        }),
{
    let key = (parent, name);
    let ino = t.dentries[key];
    let u = t.detached_dir(parent, name, ino, now);
    assert(t.inodes.contains_key(ino) && t.is_dir(parent));
    assert(ino != parent) by {
        if ino == parent {
            assert(t.dentries.contains_key((ino, name)));
        }
    }
    assert(t.names_of(ino).contains(key));
    lemma_names_finite(t, ino);
    lemma_names_taken(t, u, key);
    lemma_taken_tree(t, u, key);
    lemma_rows_rest(t, u, chunk_size);
    assert(u.inodes.contains_key(ino));
}

} // verus!
