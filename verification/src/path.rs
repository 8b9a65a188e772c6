//! Paths of the filesystem: components, normal form and walks.
use crate::error::FsError;
use crate::text::{chars_of, same_text, string_of, strings};
use crate::stats::ROOT_INO;
use vstd::prelude::*;

verus! {

/// The finished components of a text and the one that is still open at its end.
pub open spec fn scan(s: Seq<char>) -> (Seq<Seq<char>>, Seq<char>)
    decreases s.len(),
{
    if s.len() == 0 {
        (Seq::empty(), Seq::empty())
    } else {
        let (done, open) = scan(s.drop_last());
        if s.last() == '/' {
            (
                if open.len() == 0 {
                    done
                } else {
                    done.push(open)
                },
                Seq::empty(),
            )
        } else {
            (done, open.push(s.last()))
        }
    }
}

/// The non-empty parts of a text between slashes, in order.
pub open spec fn components(s: Seq<char>) -> Seq<Seq<char>> {
    let (done, open) = scan(s);
    if open.len() == 0 {
        done
    } else {
        done.push(open)
    }
}

/// Components with a slash before each; the root is a lone slash.
pub open spec fn slashed(parts: Seq<Seq<char>>) -> Seq<char>
    decreases parts.len(),
{
    if parts.len() == 0 {
        Seq::empty()
    } else {
        slashed(parts.drop_last()).push('/') + parts.last()
    }
}

/// The absolute path with these components.
pub open spec fn rendered(parts: Seq<Seq<char>>) -> Seq<char> {
    if parts.len() == 0 {
        seq!['/']
    } else {
        slashed(parts)
    }
}

/// Components after `.` and `..` were resolved; `..` at the root stays there.
pub open spec fn resolved(parts: Seq<Seq<char>>) -> Seq<Seq<char>>
    decreases parts.len(),
{
    if parts.len() == 0 {
        Seq::empty()
    } else {
        let before = resolved(parts.drop_last());
        if parts.last() == seq!['.'] {
            before
        } else if parts.last() == seq!['.', '.'] {
            if before.len() == 0 {
                before
            } else {
                before.drop_last()
            }
        } else {
            before.push(parts.last())
        }
    }
}

/// A text without its trailing slashes.
pub open spec fn trim_end_slashes(s: Seq<char>) -> Seq<char>
    decreases s.len(),
{
    if s.len() > 0 && s.last() == '/' {
        trim_end_slashes(s.drop_last())
    } else {
        s
    }
}

/// The normal form of a path. Trailing slashes go; an absolute path is resolved; a
/// relative path gets a leading slash and is otherwise kept.
pub open spec fn normal_form(path: Seq<char>) -> Seq<char> {
    let trimmed = trim_end_slashes(path);
    if trimmed.len() == 0 {
        seq!['/']
    } else if trimmed[0] == '/' {
        rendered(resolved(components(trimmed)))
    } else {
        seq!['/'] + trimmed
    }
}

/// A component as it can stand in a path: not empty and without a slash.
pub open spec fn plain(part: Seq<char>) -> bool {
    part.len() > 0 && !part.contains('/')
}

pub open spec fn all_plain(parts: Seq<Seq<char>>) -> bool {
    forall|i: int| 0 <= i < parts.len() ==> plain(#[trigger] parts[i])
}

proof fn lemma_scan_plain(s: Seq<char>)
    ensures
        all_plain(scan(s).0),
        !scan(s).1.contains('/'),
    decreases s.len(),
{
    if s.len() > 0 {
        lemma_scan_plain(s.drop_last());
        let (done, open) = scan(s.drop_last());
        let (next, rest) = scan(s);
        if s.last() == '/' {
            if open.len() > 0 {
                assert forall|i: int| 0 <= i < next.len() implies plain(#[trigger] next[i]) by {
                    if i < done.len() {
                        assert(next[i] == done[i]);
                    }
                }
            }
        } else {
            assert forall|i: int| 0 <= i < rest.len() implies rest[i] != '/' by {
                if i < open.len() {
                    assert(rest[i] == open[i]);
                    assert(open.contains(open[i]));
                }
            }
        }
    }
}

/// Every component is non-empty and holds no slash.
pub proof fn components_are_plain(s: Seq<char>)
    ensures
        all_plain(components(s)),
{
    lemma_scan_plain(s);
    let (done, open) = scan(s);
    let all = components(s);
    assert forall|i: int| 0 <= i < all.len() implies plain(#[trigger] all[i]) by {
        if i < done.len() {
            assert(all[i] == done[i]);
        }
    }
}

proof fn lemma_scan_append_plain(s: Seq<char>, part: Seq<char>)
    requires
        !part.contains('/'),
        scan(s).1.len() == 0,
    ensures
        scan(s + part) == (scan(s).0, part),
    decreases part.len(),
{
    if part.len() == 0 {
        assert(s + part =~= s);
        assert(scan(s).1 =~= part);
    } else {
        let head = part.drop_last();
        assert(!head.contains('/')) by {
            if head.contains('/') {
                let i = choose|i: int| 0 <= i < head.len() && head[i] == '/';
                assert(part[i] == '/');
            }
        }
        lemma_scan_append_plain(s, head);
        assert((s + part).drop_last() =~= s + head);
        assert(part.contains(part.last())) by {
            assert(part[part.len() - 1] == part.last());
        }
        assert(head.push(part.last()) =~= part);
    }
}

proof fn lemma_scan_slashed(parts: Seq<Seq<char>>)
    requires
        all_plain(parts),
        parts.len() > 0,
    ensures
        scan(slashed(parts)) == (parts.drop_last(), parts.last()),
    decreases parts.len(),
{
    let head = parts.drop_last();
    let before = slashed(head);
    assert(plain(parts[parts.len() - 1]));
    let opened = before.push('/');
    assert(opened.drop_last() =~= before);
    if head.len() == 0 {
        assert(before =~= Seq::<char>::empty());
        assert(scan(before) == (Seq::<Seq<char>>::empty(), Seq::<char>::empty()));
        assert(scan(opened) == (Seq::<Seq<char>>::empty(), Seq::<char>::empty()));
        assert(head =~= Seq::<Seq<char>>::empty());
    } else {
        assert(all_plain(head)) by {
            assert forall|i: int| 0 <= i < head.len() implies plain(#[trigger] head[i]) by {
                assert(head[i] == parts[i]);
            }
        }
        lemma_scan_slashed(head);
        assert(plain(head[head.len() - 1])) by {
            assert(head[head.len() - 1] == parts[head.len() - 1]);
        }
        assert(head.drop_last().push(head.last()) =~= head);
    }
    assert(scan(opened) == (head, Seq::<char>::empty()));
    lemma_scan_append_plain(opened, parts.last());
}

/// Splitting the path made of plain components gives the components back.
pub proof fn split_undoes_render(parts: Seq<Seq<char>>)
    requires
        all_plain(parts),
    ensures
        components(rendered(parts)) == parts,
{
    if parts.len() == 0 {
        let root = seq!['/'];
        assert(root.drop_last() =~= Seq::<char>::empty());
        assert(scan(root.drop_last()) == (Seq::<Seq<char>>::empty(), Seq::<char>::empty()));
        assert(components(rendered(parts)) =~= parts);
    } else {
        lemma_scan_slashed(parts);
        assert(plain(parts[parts.len() - 1]));
        assert(parts.drop_last().push(parts.last()) =~= parts);
    }
}

proof fn lemma_resolved_plain(parts: Seq<Seq<char>>)
    requires
        all_plain(parts),
    ensures
        all_plain(resolved(parts)),
        forall|i: int|
            0 <= i < resolved(parts).len() ==> (#[trigger] resolved(parts)[i]) != seq!['.']
                && resolved(parts)[i] != seq!['.', '.'],
    decreases parts.len(),
{
    if parts.len() > 0 {
        let head = parts.drop_last();
        assert(all_plain(head)) by {
            assert forall|i: int| 0 <= i < head.len() implies plain(#[trigger] head[i]) by {
                assert(head[i] == parts[i]);
            }
        }
        lemma_resolved_plain(head);
        assert(plain(parts[parts.len() - 1]));
        let before = resolved(head);
        let after = resolved(parts);
        assert forall|i: int| 0 <= i < after.len() implies plain(#[trigger] after[i])
            && after[i] != seq!['.'] && after[i] != seq!['.', '.'] by {
            if i < before.len() {
                assert(after[i] == before[i]);
            }
        }
    }
}

proof fn lemma_resolved_fixpoint(parts: Seq<Seq<char>>)
    requires
        forall|i: int|
            0 <= i < parts.len() ==> (#[trigger] parts[i]) != seq!['.'] && parts[i] != seq![
                '.',
                '.',
            ],
    ensures
        resolved(parts) == parts,
    decreases parts.len(),
{
    if parts.len() > 0 {
        let head = parts.drop_last();
        assert forall|i: int| 0 <= i < head.len() implies (#[trigger] head[i]) != seq!['.']
            && head[i] != seq!['.', '.'] by {
            assert(head[i] == parts[i]);
        }
        lemma_resolved_fixpoint(head);
        assert(parts[parts.len() - 1] == parts.last());
        assert(head.push(parts.last()) =~= parts);
    } else {
        assert(resolved(parts) =~= parts);
    }
}

pub proof fn lemma_slashed_shape(parts: Seq<Seq<char>>)
    requires
        all_plain(parts),
        parts.len() > 0,
    ensures
        slashed(parts).len() > 0,
        slashed(parts)[0] == '/',
        slashed(parts).last() != '/',
    decreases parts.len(),
{
    let last = parts[parts.len() - 1];
    assert(plain(last));
    assert(last.contains(last.last())) by {
        assert(last[last.len() - 1] == last.last());
    }
    let head = parts.drop_last();
    if head.len() > 0 {
        assert(all_plain(head)) by {
            assert forall|i: int| 0 <= i < head.len() implies plain(#[trigger] head[i]) by {
                assert(head[i] == parts[i]);
            }
        }
        lemma_slashed_shape(head);
    } else {
        assert(slashed(head) =~= Seq::<char>::empty());
    }
}

/// The normal form of an absolute path is its own normal form, holds no empty, `.` or
/// `..` component, and is what its components render to.
pub proof fn normal_form_is_stable(path: Seq<char>)
    requires
        trim_end_slashes(path).len() == 0 || trim_end_slashes(path)[0] == '/',
    ensures
        normal_form(normal_form(path)) == normal_form(path),
        rendered(components(normal_form(path))) == normal_form(path),
        forall|i: int|
            0 <= i < components(normal_form(path)).len() ==> {
                let part = #[trigger] components(normal_form(path))[i];
                part.len() > 0 && part != seq!['.'] && part != seq!['.', '.']
            },
{
    let trimmed = trim_end_slashes(path);
    let parts = if trimmed.len() == 0 {
        Seq::<Seq<char>>::empty()
    } else {
        resolved(components(trimmed))
    };
    components_are_plain(trimmed);
    lemma_resolved_plain(components(trimmed));
    let normal = normal_form(path);
    assert(normal == rendered(parts));
    split_undoes_render(parts);
    assert forall|i: int| 0 <= i < components(normal).len() implies {
        let part = #[trigger] components(normal)[i];
        part.len() > 0 && part != seq!['.'] && part != seq!['.', '.']
    } by {
        assert(components(normal)[i] == parts[i]);
        assert(plain(parts[i]));
    }
    if parts.len() == 0 {
        let root = seq!['/'];
        assert(root.drop_last() =~= Seq::<char>::empty());
        assert(trim_end_slashes(root.drop_last()) =~= Seq::<char>::empty());
        assert(trim_end_slashes(root) =~= Seq::<char>::empty());
    } else {
        lemma_slashed_shape(parts);
        assert(trim_end_slashes(normal) == normal);
        lemma_resolved_fixpoint(parts);
    }
}

/// Splits a text into its non-empty parts between slashes.
pub fn split_components(s: &str) -> (parts: Vec<String>)
    ensures
        strings(parts@) == components(s@),
{
    let chars: Vec<char> = chars_of(s);
    let mut parts: Vec<String> = Vec::new();
    let mut start: usize = 0;
    let mut i: usize = 0;
    assert(strings(parts@) =~= scan(s@.take(0)).0);
    assert(chars@.subrange(0, 0) =~= scan(s@.take(0)).1);
    while i < chars.len()
        invariant
            start <= i <= chars@.len(),
            chars@ == s@,
            strings(parts@) == scan(s@.take(i as int)).0,
            chars@.subrange(start as int, i as int) == scan(s@.take(i as int)).1,
        decreases chars@.len() - i,
    {
        proof {
            assert(s@.take(i + 1).drop_last() =~= s@.take(i as int));
            assert(s@.take(i + 1).last() == chars@[i as int]);
        }
        if chars[i] == '/' {
            if start < i {
                let part: String = string_of(&chars, start, i);
                assert(strings(parts@.push(part)) =~= strings(parts@).push(part@));
                parts.push(part);
            }
            start = i + 1;
            assert(chars@.subrange(start as int, i + 1) =~= Seq::<char>::empty());
        } else {
            assert(chars@.subrange(start as int, i + 1) =~= chars@.subrange(
                start as int,
                i as int,
            ).push(chars@[i as int]));
        }
        i += 1;
    }
    assert(s@.take(i as int) =~= s@);
    if start < i {
        let part: String = string_of(&chars, start, i);
        assert(strings(parts@.push(part)) =~= strings(parts@).push(part@));
        parts.push(part);
    }
    parts
}

/// The absolute path made of the first `count` components.
pub fn render(parts: &Vec<String>, count: usize) -> (path: String)
    requires
        count <= parts@.len(),
    ensures
        path@ == rendered(strings(parts@).take(count as int)),
{
    let ghost all = strings(parts@);
    let mut path: String = String::new();
    if count == 0 {
        path.push('/');
        assert(path@ =~= seq!['/']);
        return path;
    }
    let mut i: usize = 0;
    assert(path@ =~= slashed(all.take(0)));
    while i < count
        invariant
            i <= count <= parts@.len(),
            all == strings(parts@),
            path@ == slashed(all.take(i as int)),
        decreases count - i,
    {
        path.push('/');
        path.append(parts[i].as_str());
        proof {
            assert(all.take(i + 1).drop_last() =~= all.take(i as int));
            assert(all.take(i + 1).last() == parts@[i as int]@);
        }
        i += 1;
    }
    path
}

pub fn trimmed_len(chars: &Vec<char>) -> (len: usize)
    ensures
        len <= chars@.len(),
        chars@.take(len as int) == trim_end_slashes(chars@),
{
    let mut len: usize = chars.len();
    assert(chars@.take(len as int) =~= chars@);
    while len > 0 && chars[len - 1] == '/'
        invariant
            len <= chars@.len(),
            trim_end_slashes(chars@.take(len as int)) == trim_end_slashes(chars@),
        decreases len,
    {
        assert(chars@.take(len as int).drop_last() =~= chars@.take(len - 1));
        len = len - 1;
    }
    len
}

/// The normal form of a path.
pub fn normalize_path(path: &str) -> (normal: String)
    ensures
        normal@ == normal_form(path@),
{
    let chars: Vec<char> = chars_of(path);
    let len: usize = trimmed_len(&chars);
    if len == 0 {
        let mut root: String = String::new();
        root.push('/');
        assert(root@ =~= seq!['/']);
        return root;
    }
    let trimmed: String = string_of(&chars, 0, len);
    assert(trimmed@ =~= trim_end_slashes(path@));
    if chars[0] != '/' {
        let mut relative: String = String::new();
        relative.push('/');
        relative.append(trimmed.as_str());
        assert(relative@ =~= seq!['/'] + trimmed@);
        return relative;
    }
    let parts: Vec<String> = split_components(trimmed.as_str());
    let ghost all = components(trimmed@);
    let mut kept: Vec<String> = Vec::new();
    let mut i: usize = 0;
    proof {
        reveal_strlit(".");
        reveal_strlit("..");
        assert("."@ =~= seq!['.']);
        assert(".."@ =~= seq!['.', '.']);
        assert(strings(kept@) =~= resolved(all.take(0)));
    }
    while i < parts.len()
        invariant
            i <= parts@.len(),
            strings(parts@) == all,
            "."@ == seq!['.'],
            ".."@ == seq!['.', '.'],
            strings(kept@) == resolved(all.take(i as int)),
        decreases parts@.len() - i,
    {
        let part: &String = &parts[i];
        proof {
            assert(all.take(i + 1).drop_last() =~= all.take(i as int));
            assert(all.take(i + 1).last() == part@);
        }
        if same_text(part.as_str(), ".") {
        } else if same_text(part.as_str(), "..") {
            if kept.len() > 0 {
                let ghost was = kept@;
                kept.pop();
                assert(strings(kept@) =~= strings(was).drop_last());
            }
        } else {
            let copy: String = part.clone();
            assert(strings(kept@.push(copy)) =~= strings(kept@).push(copy@));
            kept.push(copy);
        }
        i += 1;
    }
    assert(all.take(i as int) =~= all);
    assert(strings(kept@).take(kept@.len() as int) =~= strings(kept@));
    render(&kept, kept.len())
}

/// The components of the normal form of a path.
pub fn split_path(path: &str) -> (parts: Vec<String>)
    ensures
        strings(parts@) == components(normal_form(path@)),
{
    let normal: String = normalize_path(path);
    split_components(normal.as_str())
}

/// The path of the parent directory and the last component. The root has neither.
pub fn parent_and_name(path: &str) -> (result: Result<(String, String), FsError>)
    ensures
        ({
            let parts = components(normal_form(normal_form(path@)));
            match result {
                Ok((parent, name)) => {
                    &&& parts.len() > 0
                    &&& parent@ == rendered(parts.drop_last())
                    &&& name@ == parts.last()
                },
                Err(error) => parts.len() == 0 && error is RootOperation,
            }
        }),
{
    let normal: String = normalize_path(path);
    let parts: Vec<String> = split_path(normal.as_str());
    let ghost all = strings(parts@);
    if parts.len() == 0 {
        return Err(FsError::RootOperation);
    }
    let last: usize = parts.len() - 1;
    let parent: String = render(&parts, last);
    assert(all.take(last as int) =~= all.drop_last());
    Ok((parent, parts[last].clone()))
}

/// Where a walk along `names` from `start` ends in a directory tree, if it does.
pub open spec fn walk(
    dentries: Map<(i64, Seq<char>), i64>,
    start: i64,
    names: Seq<Seq<char>>,
) -> Option<i64>
    decreases names.len(),
{
    if names.len() == 0 {
        Some(start)
    } else {
        match walk(dentries, start, names.drop_last()) {
            Some(parent) => if dentries.contains_key((parent, names.last())) {
                Some(dentries[(parent, names.last())])
            } else {
                None
            },
            None => None,
        }
    }
}

/// A walk from the root along the components of a path, one lookup at a time.
pub struct PathWalk {
    pub names: Vec<String>,
    pub next: usize,
    pub current: i64,
}

impl PathWalk {
    /// The walk has found its place in `dentries`.
    pub open spec fn placed(self, dentries: Map<(i64, Seq<char>), i64>) -> bool {
        &&& self.next <= self.names@.len()
        &&& walk(dentries, ROOT_INO, strings(self.names@).take(self.next as int)) == Some(
            self.current,
        )
    }

    /// A walk to `path` that has not left the root.
    pub fn to(path: &str) -> (walk: PathWalk)
        ensures
            strings(walk.names@) == components(normal_form(path@)),
            walk.next == 0,
            walk.current == ROOT_INO,
            forall|dentries: Map<(i64, Seq<char>), i64>| #[trigger] walk.placed(dentries),
    {
        PathWalk { names: split_path(path), next: 0, current: ROOT_INO }
    }

    /// A walk along the components of `path` as they stand.
    pub fn along(path: &str) -> (walk: PathWalk)
        ensures
            strings(walk.names@) == components(path@),
            walk.next == 0,
            walk.current == ROOT_INO,
            forall|dentries: Map<(i64, Seq<char>), i64>| #[trigger] walk.placed(dentries),
    {
        PathWalk { names: split_components(path), next: 0, current: ROOT_INO }
    }

    /// Whether every component was looked up.
    pub fn is_done(&self) -> (done: bool)
        requires
            self.next <= self.names@.len(),
        ensures
            done == (self.next == self.names@.len()),
    {
        self.next >= self.names.len()
    }

    /// The name to look up in the current directory.
    pub fn wanted(&self) -> (name: &str)
        requires
            self.next < self.names@.len(),
        ensures
            name@ == self.names@[self.next as int]@,
    {
        self.names[self.next].as_str()
    }

    /// Goes on to the child that the lookup found.
    pub fn enter(&mut self, child: i64)
        requires
            old(self).next < old(self).names@.len(),
        ensures
            final(self).names@ == old(self).names@,
            final(self).next == old(self).next + 1,
            final(self).current == child,
            forall|dentries: Map<(i64, Seq<char>), i64>|
                #![trigger final(self).placed(dentries)]
                old(self).placed(dentries) && dentries.contains_key(
                    (old(self).current, old(self).names@[old(self).next as int]@),
                ) && dentries[(old(self).current, old(self).names@[old(self).next as int]@)]
                    == child ==> final(self).placed(dentries),
    {
        let ghost all = strings(self.names@);
        let ghost n = self.next as int;
        let length: usize = self.names.len();
        assert(self.next < length);
        proof {
            assert(all.take(n + 1).drop_last() =~= all.take(n));
            assert(all.take(n + 1).last() == self.names@[n]@);
        }
        self.next = self.next + 1;
        self.current = child;
    }
}

/// A walk that ran to its end stands on the inode of the path; one that cannot go on
/// shows that the path does not exist.
pub proof fn walk_decides_the_path(walker: PathWalk, dentries: Map<(i64, Seq<char>), i64>)
    requires
        walker.placed(dentries),
    ensures
        walker.next == walker.names@.len() ==> walk(dentries, ROOT_INO, strings(walker.names@))
            == Some(walker.current),
        walker.next < walker.names@.len() && !dentries.contains_key(
            (walker.current, walker.names@[walker.next as int]@),
        ) ==> walk(dentries, ROOT_INO, strings(walker.names@)) is None,
{
    let all = strings(walker.names@);
    let n = walker.next as int;
    assert(all.take(all.len() as int) =~= all);
    if n < all.len() && !dentries.contains_key((walker.current, walker.names@[n]@)) {
        assert(all.take(n + 1).drop_last() =~= all.take(n));
        assert(all.take(n + 1).last() == walker.names@[n]@);
        lemma_walk_stays_lost(dentries, all, n + 1);
    }
}

proof fn lemma_walk_stays_lost(
    dentries: Map<(i64, Seq<char>), i64>,
    names: Seq<Seq<char>>,
    n: int,
)
    requires
        0 <= n <= names.len(),
        walk(dentries, ROOT_INO, names.take(n)) is None,
    ensures
        walk(dentries, ROOT_INO, names) is None,
    decreases names.len() - n,
{
    if n == names.len() {
        assert(names.take(n) =~= names);
    } else {
        assert(names.take(n + 1).drop_last() =~= names.take(n));
        lemma_walk_stays_lost(dentries, names, n + 1);
    }
}

} // verus!
