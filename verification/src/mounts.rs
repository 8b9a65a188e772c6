//! Mounted filesystems of agents, read from the mount table of the kernel.
use crate::text::{chars_of, same_text, starts_with, string_of, strings};
use vstd::prelude::*;

verus! {

/// The white space of Unicode.
pub open spec fn is_white(c: char) -> bool {
    ||| '\u{9}' <= c <= '\u{d}'
    ||| c == ' '
    ||| c == '\u{85}'
    ||| c == '\u{a0}'
    ||| c == '\u{1680}'
    ||| '\u{2000}' <= c <= '\u{200a}'
    ||| c == '\u{2028}'
    ||| c == '\u{2029}'
    ||| c == '\u{202f}'
    ||| c == '\u{205f}'
    ||| c == '\u{3000}'
}

fn white(c: char) -> (yes: bool)
    ensures
        yes == is_white(c),
{
    (c >= '\u{9}' && c <= '\u{d}') || c == ' ' || c == '\u{85}' || c == '\u{a0}' || c == '\u{1680}'
        || (c >= '\u{2000}' && c <= '\u{200a}') || c == '\u{2028}' || c == '\u{2029}' || c
        == '\u{202f}' || c == '\u{205f}' || c == '\u{3000}'
}

/// The words that ended before the end of a text, and the one still open there.
pub open spec fn scan_words(s: Seq<char>) -> (Seq<Seq<char>>, Seq<char>)
    decreases s.len(),
{
    if s.len() == 0 {
        (Seq::empty(), Seq::empty())
    } else {
        let (done, open) = scan_words(s.drop_last());
        if is_white(s.last()) {
            (
                if open.len() == 0 {
                    done
                } else {
                    done.push(open)
                },
                Seq::empty(),
            )
        } else {
            (done, open.push(s.last()))
        }
    }
}

/// The words of a text: its parts between white space.
pub open spec fn words(s: Seq<char>) -> Seq<Seq<char>> {
    let (done, open) = scan_words(s);
    if open.len() == 0 {
        done
    } else {
        done.push(open)
    }
}

/// The lines that ended before the end of a text, and the one still open there.
pub open spec fn scan_lines(s: Seq<char>) -> (Seq<Seq<char>>, Seq<char>)
    decreases s.len(),
{
    if s.len() == 0 {
        (Seq::empty(), Seq::empty())
    } else {
        let (done, open) = scan_lines(s.drop_last());
        if s.last() == '\n' {
            (done.push(open), Seq::empty())
        } else {
            (done, open.push(s.last()))
        }
    }
}

/// A mounted filesystem of an agent.
#[derive(Debug, Clone)]
pub struct Mount {
    /// The agent, from the source of the mount.
    pub id: String,
    /// Where the filesystem is mounted.
    pub mountpoint: String,
}

/// The mount that a line describes, as agent and place. A line counts if its source begins
/// with `agentfs:`, but for the mount that the daemon itself uses.
pub open spec fn mount_of(line: Seq<char>) -> Option<(Seq<char>, Seq<char>)> {
    let parts = words(line);
    if parts.len() >= 2 && "agentfs:"@.is_prefix_of(parts[0]) {
        let id = parts[0].skip("agentfs:"@.len() as int);
        if id == "fuse"@ {
            None
        } else {
            Some((id, parts[1]))
        }
    } else {
        None
    }
}

/// The mounts that lines describe, in order.
pub open spec fn mounts_of(lines: Seq<Seq<char>>) -> Seq<(Seq<char>, Seq<char>)>
    decreases lines.len(),
{
    if lines.len() == 0 {
        Seq::empty()
    } else {
        let before = mounts_of(lines.drop_last());
        match mount_of(lines.last()) {
            Some(mount) => before.push(mount),
            None => before,
        }
    }
}

/// The lines of a text. A text that ends with a line break has no line after it.
pub open spec fn lines(s: Seq<char>) -> Seq<Seq<char>> {
    let (done, open) = scan_lines(s);
    if open.len() == 0 {
        done
    } else {
        done.push(open)
    }
}

pub open spec fn mounts_view(mounts: Seq<Mount>) -> Seq<(Seq<char>, Seq<char>)> {
    mounts.map_values(|mount: Mount| (mount.id@, mount.mountpoint@))
}

fn split_words(chars: &Vec<char>, from: usize, to: usize) -> (parts: Vec<String>)
    requires
        from <= to <= chars@.len(),
    ensures
        strings(parts@) == words(chars@.subrange(from as int, to as int)),
{
    let ghost s = chars@.subrange(from as int, to as int);
    let mut parts: Vec<String> = Vec::new();
    let mut start: usize = from;
    let mut i: usize = from;
    assert(strings(parts@) =~= scan_words(s.take(0)).0);
    assert(chars@.subrange(start as int, i as int) =~= scan_words(s.take(0)).1);
    while i < to
        invariant
            from <= start <= i <= to <= chars@.len(),
            s == chars@.subrange(from as int, to as int),
            strings(parts@) == scan_words(s.take(i - from)).0,
            chars@.subrange(start as int, i as int) == scan_words(s.take(i - from)).1,
        decreases to - i,
    {
        let c: char = chars[i];
        let ghost before = s.take(i - from);
        let ghost after = s.take(i + 1 - from);
        assert(after.drop_last() =~= before);
        assert(after.last() == c);
        if white(c) {
            if start < i {
                let word: String = string_of(chars, start, i);
                assert(strings(parts@.push(word)) =~= strings(parts@).push(word@));
                parts.push(word);
            }
            start = i + 1;
            assert(chars@.subrange(start as int, i + 1) =~= Seq::<char>::empty());
        } else {
            assert(chars@.subrange(start as int, i + 1) =~= chars@.subrange(
                start as int,
                i as int,
            ).push(c));
        }
        i += 1;
    }
    assert(s.take(i - from) =~= s);
    if start < to {
        let word: String = string_of(chars, start, to);
        assert(strings(parts@.push(word)) =~= strings(parts@).push(word@));
        parts.push(word);
    }
    parts
}

fn read_mount(chars: &Vec<char>, from: usize, to: usize) -> (mount: Option<Mount>)
    requires
        from <= to <= chars@.len(),
    ensures
        match mount {
            Some(found) => mount_of(chars@.subrange(from as int, to as int)) == Some(
                (found.id@, found.mountpoint@),
            ),
            None => mount_of(chars@.subrange(from as int, to as int)) is None,
        },
{
    let parts: Vec<String> = split_words(chars, from, to);
    let ghost all = strings(parts@);
    if parts.len() < 2 {
        return None;
    }
    assert(all[0] == parts@[0]@ && all[1] == parts@[1]@);
    if !starts_with(parts[0].as_str(), "agentfs:") {
        return None;
    }
    let source: Vec<char> = chars_of(parts[0].as_str());
    proof {
        reveal_strlit("agentfs:");
    }
    let id: String = string_of(&source, 8, source.len());
    assert(id@ =~= all[0].skip(8));
    if same_text(id.as_str(), "fuse") {
        return None;
    }
    Some(Mount { id, mountpoint: parts[1].clone() })
}

/// The mounted filesystems of agents, given the contents of the mount table.
pub fn get_mounts(contents: &str) -> (mounts: Vec<Mount>)
    ensures
        mounts_view(mounts@) == mounts_of(lines(contents@)),
{
    let chars: Vec<char> = chars_of(contents);
    let ghost s = contents@;
    let mut mounts: Vec<Mount> = Vec::new();
    let mut start: usize = 0;
    let mut i: usize = 0;
    let len: usize = chars.len();
    assert(mounts_view(mounts@) =~= mounts_of(scan_lines(s.take(0)).0));
    assert(s.subrange(0, 0) =~= scan_lines(s.take(0)).1);
    while i < len
        invariant
            start <= i <= len,
            len == chars@.len(),
            chars@ == s,
            mounts_view(mounts@) == mounts_of(scan_lines(s.take(i as int)).0),
            s.subrange(start as int, i as int) == scan_lines(s.take(i as int)).1,
        decreases len - i,
    {
        let c: char = chars[i];
        let ghost before = s.take(i as int);
        let ghost after = s.take(i + 1);
        assert(after.drop_last() =~= before);
        assert(after.last() == c);
        if c == '\n' {
            let ghost done = scan_lines(before).0;
            let ghost line = s.subrange(start as int, i as int);
            assert(done.push(line).drop_last() =~= done);
            if let Some(mount) = read_mount(&chars, start, i) {
                assert(mounts_view(mounts@.push(mount)) =~= mounts_view(mounts@).push(
                    (mount.id@, mount.mountpoint@),
                ));
                mounts.push(mount);
            }
            start = i + 1;
            assert(s.subrange(start as int, i + 1) =~= Seq::<char>::empty());
        } else {
            assert(s.subrange(start as int, i + 1) =~= s.subrange(start as int, i as int).push(c));
        }
        i += 1;
    }
    assert(s.take(i as int) =~= s);
    if start < len {
        let ghost done = scan_lines(s).0;
        let ghost line = s.subrange(start as int, len as int);
        assert(done.push(line).drop_last() =~= done);
        if let Some(mount) = read_mount(&chars, start, len) {
            assert(mounts_view(mounts@.push(mount)) =~= mounts_view(mounts@).push(
                (mount.id@, mount.mountpoint@),
            ));
            mounts.push(mount);
        }
    }
    mounts
}

/// The mount that the daemon itself uses is never listed.
pub proof fn the_daemon_mount_is_not_listed(table: Seq<Seq<char>>, at: int)
    requires
        0 <= at < mounts_of(table).len(),
    ensures
        mounts_of(table)[at].0 != "fuse"@,
    decreases table.len(),
{
    if table.len() > 0 {
        let rest = table.drop_last();
        if at < mounts_of(rest).len() {
            the_daemon_mount_is_not_listed(rest, at);
        }
    }
}

} // verus!
