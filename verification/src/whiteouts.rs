//! Paths of the base layer that the overlay hides.
use crate::overlay_maps::child_path;
use crate::path::{
    all_plain, components, plain, rendered, slashed, split_components, split_undoes_render,
    trim_end_slashes, trimmed_len,
};
use crate::sql::{SqlModel, SqlStatement, SqlValue, models};
use crate::text::{chars_of, contains_char, same_text, starts_with, string_of, strings};
use vstd::prelude::*;

verus! {

/// The part of a text before its last slash.
pub open spec fn before_last_slash(s: Seq<char>) -> Option<Seq<char>>
    decreases s.len(),
{
    if s.len() == 0 {
        None
    } else if s.last() == '/' {
        Some(s.drop_last())
    } else {
        before_last_slash(s.drop_last())
    }
}

/// The part before the last slash, or the root if that is nothing.
pub open spec fn dir_part(s: Seq<char>) -> Seq<char> {
    match before_last_slash(s) {
        Some(dir) => if dir.len() == 0 {
            seq!['/']
        } else {
            dir
        },
        None => seq!['/'],
    }
}

/// The directory of a hidden path. Trailing slashes do not count.
pub open spec fn parent_path(path: Seq<char>) -> Seq<char> {
    dir_part(trim_end_slashes(path))
}

/// The directory part of the first `len` characters.
fn dir_of(chars: &Vec<char>, len: usize) -> (dir: String)
    requires
        len <= chars@.len(),
    ensures
        dir@ == dir_part(chars@.take(len as int)),
{
    proof {
        reveal_strlit("/");
        assert("/"@ =~= seq!['/']);
    }
    let ghost all = chars@.take(len as int);
    let mut i: usize = len;
    while i > 0 && chars[i - 1] != '/'
        invariant
            i <= len <= chars@.len(),
            before_last_slash(chars@.take(i as int)) == before_last_slash(
                chars@.take(len as int),
            ),
        decreases i,
    {
        assert(chars@.take(i as int).drop_last() =~= chars@.take(i - 1));
        i = i - 1;
    }
    if i <= 1 {
        if i == 1 {
            assert(chars@.take(1).drop_last() =~= Seq::<char>::empty());
        }
        return "/".to_owned();
    }
    assert(chars@.take(i as int).drop_last() =~= chars@.take(i - 1));
    let dir: String = string_of(chars, 0, i - 1);
    assert(dir@ =~= chars@.take(i - 1));
    dir
}

/// The directory of a hidden path.
pub fn parent_path_for_whiteout(path: &str) -> (parent: String)
    ensures
        parent@ == parent_path(path@),
{
    let chars: Vec<char> = chars_of(path);
    let len: usize = trimmed_len(&chars);
    dir_of(&chars, len)
}

/// The directory of a path as it stands.
pub fn directory_of(path: &str) -> (dir: String)
    ensures
        dir@ == dir_part(path@),
{
    let chars: Vec<char> = chars_of(path);
    assert(chars@.take(chars@.len() as int) =~= path@);
    dir_of(&chars, chars.len())
}

/// Whether a path or one of its ancestors is in a set of hidden paths.
pub open spec fn hides(hidden: Set<Seq<char>>, path: Seq<char>) -> bool {
    exists|k: int|
        0 < k <= components(path).len() && hidden.contains(
            slashed(#[trigger] components(path).take(k)),
        )
}

/// Whether `path` is the entry `name` of the directory at `dir`.
pub open spec fn is_entry(path: Seq<char>, dir: Seq<char>, name: Seq<char>) -> bool {
    &&& !name.contains('/')
    &&& if dir == seq!['/'] {
        name == trim_start_slashes(path)
    } else {
        path == dir + seq!['/'] + name
    }
}

/// A text without its leading slashes.
pub open spec fn trim_start_slashes(s: Seq<char>) -> Seq<char>
    decreases s.len(),
{
    if s.len() > 0 && s[0] == '/' {
        trim_start_slashes(s.skip(1))
    } else {
        s
    }
}

/// The names of a directory that are hidden.
pub open spec fn hidden_names(hidden: Set<Seq<char>>, dir: Seq<char>) -> Set<Seq<char>> {
    Set::new(
        |name: Seq<char>|
            exists|path: Seq<char>| #[trigger] hidden.contains(path) && is_entry(path, dir, name),
    )
}

/// The hidden paths of an overlay.
#[derive(Debug)]
pub struct Whiteouts {
    pub paths: Vec<String>,
}

impl View for Whiteouts {
    type V = Set<Seq<char>>;

    open spec fn view(&self) -> Set<Seq<char>> {
        strings(self.paths@).to_set()
    }
}

fn start_of_name(chars: &Vec<char>) -> (at: usize)
    ensures
        at <= chars@.len(),
        chars@.skip(at as int) == trim_start_slashes(chars@),
{
    let mut at: usize = 0;
    assert(chars@.skip(0) =~= chars@);
    while at < chars.len() && chars[at] == '/'
        invariant
            at <= chars@.len(),
            trim_start_slashes(chars@.skip(at as int)) == trim_start_slashes(chars@),
        decreases chars@.len() - at,
    {
        assert(chars@.skip(at as int).skip(1) =~= chars@.skip(at + 1));
        at += 1;
    }
    at
}

impl Whiteouts {
    /// No path is listed twice.
    pub open spec fn wf(self) -> bool {
        strings(self.paths@).no_duplicates()
    }

    pub fn new() -> (whiteouts: Whiteouts)
        ensures
            whiteouts.wf(),
            whiteouts@ == Set::<Seq<char>>::empty(),
    {
        let whiteouts = Whiteouts { paths: Vec::new() };
        assert(strings(whiteouts.paths@) =~= Seq::<Seq<char>>::empty());
        assert(whiteouts@ =~= Set::<Seq<char>>::empty());
        whiteouts
    }

    fn position(&self, path: &str) -> (at: Option<usize>)
        ensures
            match at {
                Some(i) => i < self.paths@.len() && self.paths@[i as int]@ == path@,
                None => !self@.contains(path@),
            },
            at is Some <==> self@.contains(path@),
    {
        let mut i: usize = 0;
        while i < self.paths.len()
            invariant
                i <= self.paths@.len(),
                forall|k: int| 0 <= k < i ==> (#[trigger] self.paths@[k])@ != path@,
            decreases self.paths@.len() - i,
        {
            if same_text(self.paths[i].as_str(), path) {
                assert(strings(self.paths@)[i as int] == path@);
                return Some(i);
            }
            i += 1;
        }
        proof {
            if self@.contains(path@) {
                let k = choose|k: int|
                    0 <= k < strings(self.paths@).len() && strings(self.paths@)[k] == path@;
                assert(self.paths@[k]@ == path@);
            }
        }
        None
    }

    /// Whether exactly this path is hidden.
    pub fn contains(&self, path: &str) -> (yes: bool)
        ensures
            yes == self@.contains(path@),
    {
        self.position(path).is_some()
    }

    /// Hides a path.
    pub fn insert(&mut self, path: &str)
        requires
            old(self).wf(),
        ensures
            final(self).wf(),
            final(self)@ == old(self)@.insert(path@),
    {
        if self.contains(path) {
            assert(self@ =~= old(self)@.insert(path@));
            return ;
        }
        let ghost before = strings(self.paths@);
        let copy: String = path.to_owned();
        self.paths.push(copy);
        proof {
            let after = strings(self.paths@);
            assert(after =~= before.push(path@));
            assert forall|p: Seq<char>| #[trigger] after.to_set().contains(p) <==> before.to_set().insert(
                path@,
            ).contains(p) by {
                if after.contains(p) {
                    let i = choose|i: int| 0 <= i < after.len() && after[i] == p;
                    if i < before.len() {
                        assert(before[i] == p);
                    }
                }
                if before.contains(p) {
                    let i = choose|i: int| 0 <= i < before.len() && before[i] == p;
                    assert(after[i] == p);
                }
                assert(after[before.len() as int] == path@);
            }
            assert(self@ =~= old(self)@.insert(path@));
            assert(after.no_duplicates()) by {
                assert forall|i: int, j: int|
                    0 <= i < after.len() && 0 <= j < after.len() && i != j implies after[i]
                    != after[j] by {
                    if i == before.len() {
                        assert(before[j] == after[j]);
                        assert(before.contains(after[j]));
                    } else if j == before.len() {
                        assert(before[i] == after[i]);
                        assert(before.contains(after[i]));
                    }
                }
            }
        }
    }

    /// Shows a path again.
    pub fn remove(&mut self, path: &str)
        requires
            old(self).wf(),
        ensures
            final(self).wf(),
            final(self)@ == old(self)@.remove(path@),
    {
        match self.position(path) {
            None => {
                assert(self@ =~= old(self)@.remove(path@));
            },
            Some(at) => {
                let ghost before = strings(self.paths@);
                self.paths.remove(at);
                proof {
                    let after = strings(self.paths@);
                    assert(after =~= before.remove(at as int));
                    assert forall|p: Seq<char>| #[trigger] after.to_set().contains(p)
                        <==> before.to_set().remove(path@).contains(p) by {
                        if after.contains(p) {
                            let i = choose|i: int| 0 <= i < after.len() && after[i] == p;
                            let b = if i < at {
                                i
                            } else {
                                i + 1
                            };
                            assert(before[b] == p && b != at);
                            assert(before[at as int] == path@);
                        }
                        if before.contains(p) && p != path@ {
                            let i = choose|i: int| 0 <= i < before.len() && before[i] == p;
                            if i < at {
                                assert(after[i] == p);
                            } else {
                                assert(after[i - 1] == p);
                            }
                        }
                    }
                    assert(self@ =~= old(self)@.remove(path@));
                    assert(after.no_duplicates()) by {
                        assert forall|i: int, j: int|
                            0 <= i < after.len() && 0 <= j < after.len() && i
                                != j implies after[i] != after[j] by {
                            let bi = if i < at {
                                i
                            } else {
                                i + 1
                            };
                            let bj = if j < at {
                                j
                            } else {
                                j + 1
                            };
                            assert(before[bi] == after[i]);
                            assert(before[bj] == after[j]);
                        }
                    }
                }
            },
        }
    }

    /// Whether a path or one of its ancestors is hidden.
    pub fn is_whiteout(&self, path: &str) -> (yes: bool)
        ensures
            yes == hides(self@, path@),
    {
        let parts: Vec<String> = split_components(path);
        let ghost all = components(path@);
        let mut current: String = String::new();
        let mut i: usize = 0;
        assert(current@ =~= slashed(all.take(0)));
        while i < parts.len()
            invariant
                i <= parts@.len(),
                strings(parts@) == all,
                all == components(path@),
                current@ == slashed(all.take(i as int)),
                forall|k: int|
                    0 < k <= i ==> !self@.contains(slashed(#[trigger] all.take(k))),
            decreases parts@.len() - i,
        {
            current.push('/');
            current.append(parts[i].as_str());
            proof {
                assert(all.take(i + 1).drop_last() =~= all.take(i as int));
                assert(all.take(i + 1).last() == parts@[i as int]@);
            }
            if self.contains(current.as_str()) {
                assert(self@.contains(slashed(components(path@).take(i + 1))));
                return true;
            }
            i += 1;
        }
        false
    }

    /// The hidden names of a directory.
    pub fn child_whiteouts(&self, dir: &str) -> (names: Vec<String>)
        ensures
            strings(names@).to_set() == hidden_names(self@, dir@),
    {
        proof {
            reveal_strlit("/");
            assert("/"@ =~= seq!['/']);
        }
        let ghost all = strings(self.paths@);
        let root: bool = same_text(dir, "/");
        let mut prefix: String = dir.to_owned();
        prefix.append("/");
        let prefix_len: usize = prefix.as_str().unicode_len();
        assert(prefix@ =~= dir@ + seq!['/']);
        let mut names: Vec<String> = Vec::new();
        let mut i: usize = 0;
        while i < self.paths.len()
            invariant
                i <= self.paths@.len(),
                all == strings(self.paths@),
                root == (dir@ == seq!['/']),
                prefix@ == dir@ + seq!['/'],
                prefix_len == prefix@.len(),
                forall|n: Seq<char>| #[trigger]
                    strings(names@).contains(n) <==> exists|k: int|
                        0 <= k < i && is_entry(#[trigger] all[k], dir@, n),
            decreases self.paths@.len() - i,
        {
            let path: &String = &self.paths[i];
            let chars: Vec<char> = chars_of(path.as_str());
            let ghost before = strings(names@);
            assert(all[i as int] == path@);
            let mut found: bool = false;
            if root {
                let at: usize = start_of_name(&chars);
                let name: String = string_of(&chars, at, chars.len());
                assert(name@ =~= trim_start_slashes(path@));
                if !contains_char(name.as_str(), '/') {
                    found = true;
                    assert(strings(names@.push(name)) =~= before.push(name@));
                    assert(is_entry(path@, dir@, name@));
                    names.push(name);
                }
            } else if starts_with(path.as_str(), prefix.as_str()) {
                let name: String = string_of(&chars, prefix_len, chars.len());
                proof {
                    assert(path@ =~= prefix@ + name@);
                    assert(prefix@ + name@ =~= dir@ + seq!['/'] + name@);
                }
                if !contains_char(name.as_str(), '/') {
                    found = true;
                    assert(strings(names@.push(name)) =~= before.push(name@));
                    assert(is_entry(path@, dir@, name@));
                    names.push(name);
                }
            }
            proof {
                lemma_entries_step(before, strings(names@), all, dir@, i as int, found);
            }
            i += 1;
        }
        proof {
            assert forall|n: Seq<char>| #[trigger]
                strings(names@).to_set().contains(n) <==> hidden_names(self@, dir@).contains(n) by {
                if strings(names@).contains(n) {
                    let k = choose|k: int| 0 <= k < i && is_entry(#[trigger] all[k], dir@, n);
                    assert(all.contains(all[k]));
                    assert(self@.contains(all[k]));
                }
                if hidden_names(self@, dir@).contains(n) {
                    let p = choose|p: Seq<char>| #[trigger]
                        self@.contains(p) && is_entry(p, dir@, n);
                    let k = choose|k: int| 0 <= k < all.len() && all[k] == p;
                    assert(is_entry(all[k], dir@, n));
                }
            }
            assert(strings(names@).to_set() =~= hidden_names(self@, dir@));
        }
        names
    }
}

/// One more path extends the names found by its own.
proof fn lemma_entries_step(
    before: Seq<Seq<char>>,
    after: Seq<Seq<char>>,
    all: Seq<Seq<char>>,
    dir: Seq<char>,
    i: int,
    found: bool,
)
    requires
        0 <= i < all.len(),
        forall|n: Seq<char>| #[trigger]
            before.contains(n) <==> exists|k: int|
                0 <= k < i && is_entry(#[trigger] all[k], dir, n),
        found ==> after.len() == before.len() + 1 && after == before.push(after.last())
            && is_entry(all[i], dir, after.last()),
        !found ==> after == before && forall|n: Seq<char>| !#[trigger] is_entry(all[i], dir, n),
    ensures
        forall|n: Seq<char>| #[trigger]
            after.contains(n) <==> exists|k: int|
                0 <= k < i + 1 && is_entry(#[trigger] all[k], dir, n),
{
    assert forall|n: Seq<char>| #[trigger] after.contains(n) <==> exists|k: int|
        0 <= k < i + 1 && is_entry(#[trigger] all[k], dir, n) by {
        if after.contains(n) {
            if before.contains(n) {
                let k = choose|k: int| 0 <= k < i && is_entry(#[trigger] all[k], dir, n);
                assert(is_entry(all[k], dir, n));
            } else {
                let j = choose|j: int| 0 <= j < after.len() && after[j] == n;
                if j < before.len() {
                    assert(before[j] == n);
                }
                assert(is_entry(all[i], dir, n));
            }
        }
        if exists|k: int| 0 <= k < i + 1 && is_entry(#[trigger] all[k], dir, n) {
            let k = choose|k: int| 0 <= k < i + 1 && is_entry(#[trigger] all[k], dir, n);
            if k < i {
                assert(before.contains(n));
                let j = choose|j: int| 0 <= j < before.len() && before[j] == n;
                assert(after[j] == n);
            } else {
                assert(n == after.last()) by {
                    lemma_entry_unique(all[i], dir, n, after.last());
                }
                assert(after[after.len() - 1] == n);
            }
        }
    }
}

proof fn lemma_entry_unique(path: Seq<char>, dir: Seq<char>, a: Seq<char>, b: Seq<char>)
    requires
        is_entry(path, dir, a),
        is_entry(path, dir, b),
    ensures
        a == b,
{
    if dir != seq!['/'] {
        let head = dir + seq!['/'];
        assert(a =~= path.skip(head.len() as int));
        assert(b =~= path.skip(head.len() as int));
    }
}

/// Hiding a path hides everything below it.
pub proof fn a_hidden_path_hides_what_is_below(
    hidden: Set<Seq<char>>,
    parts: Seq<Seq<char>>,
    below: Seq<Seq<char>>,
)
    requires
        all_plain(parts),
        all_plain(below),
        parts.len() > 0,
    ensures
        hides(hidden.insert(rendered(parts)), rendered(parts + below)),
{
    let all = parts + below;
    assert forall|i: int| 0 <= i < all.len() implies plain(#[trigger] all[i]) by {
        if i < parts.len() {
            assert(all[i] == parts[i]);
        } else {
            assert(all[i] == below[i - parts.len()]);
        }
    }
    split_undoes_render(all);
    assert(components(rendered(all)).take(parts.len() as int) =~= parts);
}

/// Showing a path again leaves it visible unless an ancestor is hidden, and changes
/// nothing for paths that are not below it.
pub proof fn showing_a_path_leaves_other_paths(
    hidden: Set<Seq<char>>,
    parts: Seq<Seq<char>>,
    other: Seq<char>,
)
    requires
        all_plain(parts),
        parts.len() > 0,
        forall|k: int|
            0 < k <= components(other).len() ==> #[trigger] components(other).take(k) != parts,
    ensures
        hides(hidden.remove(rendered(parts)), other) == hides(hidden, other),
{
    let shown = hidden.remove(rendered(parts));
    crate::path::components_are_plain(other);
    assert forall|k: int| 0 < k <= components(other).len() implies shown.contains(
        slashed(#[trigger] components(other).take(k)),
    ) == hidden.contains(slashed(components(other).take(k))) by {
        let way = components(other).take(k);
        if slashed(way) == rendered(parts) {
            assert forall|i: int| 0 <= i < way.len() implies plain(#[trigger] way[i]) by {
                assert(way[i] == components(other)[i]);
            }
            split_undoes_render(way);
            split_undoes_render(parts);
            assert(way == parts);
        }
    }
}

/// A hidden name of a directory is a hidden path, when hidden paths are absolute and
/// normal.
pub proof fn hidden_names_are_hidden_paths(
    hidden: Set<Seq<char>>,
    dir: Seq<Seq<char>>,
    name: Seq<char>,
)
    requires
        all_plain(dir),
        forall|path: Seq<char>| #[trigger]
            hidden.contains(path) ==> components(path).len() > 0 && path == rendered(
                components(path),
            ),
        hidden_names(hidden, rendered(dir)).contains(name),
    ensures
        hides(hidden, child_path(rendered(dir), name)),
{
    let path = choose|path: Seq<char>| #[trigger]
        hidden.contains(path) && is_entry(path, rendered(dir), name);
    let parts = components(path);
    crate::path::components_are_plain(path);
    if dir.len() == 0 {
        assert(rendered(dir) == seq!['/']);
        // The path is slashes and then the name.
        crate::path::lemma_slashed_shape(parts);
        assert(path[0] == '/');
        lemma_single_component(parts, name);
        assert(child_path(rendered(dir), name) =~= path);
    } else {
        crate::path::lemma_slashed_shape(dir);
        assert(rendered(dir) != seq!['/']);
        assert(child_path(rendered(dir), name) =~= path);
    }
    assert(components(path).take(parts.len() as int) =~= parts);
}

proof fn lemma_single_component(parts: Seq<Seq<char>>, name: Seq<char>)
    requires
        all_plain(parts),
        parts.len() > 0,
        name == trim_start_slashes(slashed(parts)),
        !name.contains('/'),
    ensures
        slashed(parts) == seq!['/'] + name,
{
    let path = slashed(parts);
    crate::path::lemma_slashed_shape(parts);
    let rest = path.skip(1);
    lemma_second_char(parts);
    assert(rest.len() > 0 && rest[0] != '/');
    assert(trim_start_slashes(rest) == rest);
    assert(name == rest);
    assert(path =~= seq!['/'] + rest);
}

proof fn lemma_second_char(parts: Seq<Seq<char>>)
    requires
        all_plain(parts),
        parts.len() > 0,
    ensures
        slashed(parts).len() > 1,
        slashed(parts)[1] != '/',
    decreases parts.len(),
{
    let head = parts.drop_last();
    let last = parts[parts.len() - 1];
    assert(plain(last));
    if head.len() == 0 {
        assert(slashed(head) =~= Seq::<char>::empty());
        assert(slashed(parts) =~= seq!['/'] + last);
        assert(slashed(parts)[1] == last[0]);
        assert(last.contains(last[0]));
    } else {
        assert forall|i: int| 0 <= i < head.len() implies plain(#[trigger] head[i]) by {
            assert(head[i] == parts[i]);
        }
        lemma_second_char(head);
    }
}

/// The statement that records a hidden path.
pub fn whiteout_statement(path: &str, now: i64) -> (statement: SqlStatement)
    ensures
        statement.runs(
            "INSERT OR REPLACE INTO fs_whiteout (path, parent_path, created_at) VALUES (?, ?, ?)"@,
            seq![
                SqlModel::Text(path@),
                SqlModel::Text(parent_path(path@)),
                SqlModel::Integer(now),
            ],
        ),
{
    let mut values: Vec<SqlValue> = Vec::new();
    values.push(SqlValue::Text(path.to_owned()));
    values.push(SqlValue::Text(parent_path_for_whiteout(path)));
    values.push(SqlValue::Integer(now));
    assert(models(values@) =~= seq![
        SqlModel::Text(path@),
        SqlModel::Text(parent_path(path@)),
        SqlModel::Integer(now),
    ]);
    SqlStatement {
        sql:
            "INSERT OR REPLACE INTO fs_whiteout (path, parent_path, created_at) VALUES (?, ?, ?)".to_owned(),
        values,
    }
}

/// The statement that shows a path again, or none when it is not hidden.
pub fn unhide_statement(whiteouts: &Whiteouts, path: &str) -> (statement: Option<SqlStatement>)
    ensures
        match statement {
            Some(s) => whiteouts@.contains(path@) && s.runs(
                "DELETE FROM fs_whiteout WHERE path = ?"@,
                seq![SqlModel::Text(path@)],
            ),
            None => !whiteouts@.contains(path@),
        },
{
    if !whiteouts.contains(path) {
        return None;
    }
    let mut values: Vec<SqlValue> = Vec::new();
    values.push(SqlValue::Text(path.to_owned()));
    assert(models(values@) =~= seq![SqlModel::Text(path@)]);
    Some(SqlStatement { sql: "DELETE FROM fs_whiteout WHERE path = ?".to_owned(), values })
}

} // verus!
