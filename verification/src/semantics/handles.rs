//! Write authority that outlives a change of mode, and one open file per inode.
use crate::flags::{OpenBits, writes};
use crate::semantics::recency::{
    appended_key, displaced, distinct, first_dropped, has_key, lemma_value_at, place, pushed,
    value_of, without, without_drops_one_key,
};
use std::collections::HashMap;
use vstd::prelude::*;

verus! {

broadcast use vstd::std_specs::hash::group_hash_axioms;

/// How many write-authority tokens a table holds by default.
pub const DEFAULT_WRITE_TOKEN_CAPACITY: usize = 16_384;

/// How many open handles a table holds by default.
pub const DEFAULT_OPEN_HANDLE_CAPACITY: usize = 16_384;

/// `lru::DefaultHasher`, which makes the hashers of a cache.
#[verifier::external_type_specification]
#[verifier::external_body]
pub struct ExDefaultHasher(lru::DefaultHasher);

/// `lru::LruCache`, a map of bounded size that drops the entry unused for longest.
#[verifier::external_type_specification]
#[verifier::external_body]
#[verifier::reject_recursive_types(K)]
#[verifier::reject_recursive_types(V)]
#[verifier::reject_recursive_types(S)]
pub struct ExLruCache<K, V, S>(lru::LruCache<K, V, S>);

/// The tokens of a cache, each with its inode and the stamp of its last use. The one used
/// last stands last.
pub uninterp spec fn token_entries(cache: lru::LruCache<u64, (i64, u64)>) -> Seq<
    (u64, (i64, u64)),
>;

/// How many tokens a cache holds at most.
pub uninterp spec fn token_limit(cache: lru::LruCache<u64, (i64, u64)>) -> nat;

/// The open files of a cache: for an inode the number of the file and whether it was opened
/// for writing. The one used last stands last.
pub uninterp spec fn open_entries(cache: lru::LruCache<i64, (u64, bool)>) -> Seq<
    (i64, (u64, bool)),
>;

/// How many open files a cache holds at most.
pub uninterp spec fn open_limit(cache: lru::LruCache<i64, (u64, bool)>) -> nat;

/// Whether a cache of this size can be made: the table that it allocates at once has at most
/// twice as many slots as eight sevenths of its size, of less than 24 bytes each.
pub open spec fn fits_memory(capacity: usize) -> bool {
    0 < capacity && capacity <= isize::MAX / 64
}

/// `LruCache::new`: an empty cache of the given size.
#[verifier::external_body]
fn new_tokens(capacity: usize) -> (cache: lru::LruCache<u64, (i64, u64)>)
    requires
        fits_memory(capacity),
    ensures
        token_entries(cache) == Seq::<(u64, (i64, u64))>::empty(),
        token_limit(cache) == capacity,
{
    lru::LruCache::new(std::num::NonZeroUsize::new(capacity).unwrap())
}

/// `LruCache::peek`: the value of a key. The order of use stays.
#[verifier::external_body]
fn peek_token(cache: &lru::LruCache<u64, (i64, u64)>, token: u64) -> (entry: Option<(i64, u64)>)
    ensures
        entry == value_of(token_entries(*cache), token),
{
    cache.peek(&token).copied()
}

/// `LruCache::push`: gives a key a value and makes it the last used one. Returns the entry
/// that this displaced: the former one of the key, or the one unused for longest if the
/// cache was full.
#[verifier::external_body]
fn push_token(cache: &mut lru::LruCache<u64, (i64, u64)>, token: u64, entry: (i64, u64)) -> (out:
    Option<(u64, (i64, u64))>)
    ensures
        out == displaced(token_entries(*old(cache)), token_limit(*old(cache)), token),
        token_entries(*final(cache)) == pushed(
            token_entries(*old(cache)),
            token_limit(*old(cache)),
            token,
            entry,
        ),
        token_limit(*final(cache)) == token_limit(*old(cache)),
{
    cache.push(token, entry)
}

/// `LruCache::get_mut`: the value of a key, to read or replace. The key becomes the last
/// used one.
#[verifier::external_body]
fn token_mut(cache: &mut lru::LruCache<u64, (i64, u64)>, token: u64) -> (entry: Option<
    &mut (i64, u64),
>)
    ensures
        match entry {
            Some(held) => value_of(token_entries(*old(cache)), token) == Some(*held)
                && token_entries(*final(cache)) == without(
                token_entries(*old(cache)),
                token,
            ).push((token, *final(held))),
            None => !has_key(token_entries(*old(cache)), token) && token_entries(*final(cache))
                == token_entries(*old(cache)),
        },
        token_limit(*final(cache)) == token_limit(*old(cache)),
{
    cache.get_mut(&token)
}

/// `LruCache::pop`: removes the entry of a key.
#[verifier::external_body]
fn pop_token(cache: &mut lru::LruCache<u64, (i64, u64)>, token: u64) -> (out: Option<(i64, u64)>)
    ensures
        out == value_of(token_entries(*old(cache)), token),
        token_entries(*final(cache)) == without(token_entries(*old(cache)), token),
        token_limit(*final(cache)) == token_limit(*old(cache)),
{
    cache.pop(&token)
}

/// `LruCache::new`: an empty cache of the given size.
#[verifier::external_body]
fn new_open_files(capacity: usize) -> (cache: lru::LruCache<i64, (u64, bool)>)
    requires
        fits_memory(capacity),
    ensures
        open_entries(cache) == Seq::<(i64, (u64, bool))>::empty(),
        open_limit(cache) == capacity,
{
    lru::LruCache::new(std::num::NonZeroUsize::new(capacity).unwrap())
}

/// `LruCache::get`: the value of a key, which becomes the last used one.
#[verifier::external_body]
fn get_open_file(cache: &mut lru::LruCache<i64, (u64, bool)>, ino: i64) -> (entry: Option<
    (u64, bool),
>)
    ensures
        entry == value_of(open_entries(*old(cache)), ino),
        open_entries(*final(cache)) == used(open_entries(*old(cache)), ino),
        open_limit(*final(cache)) == open_limit(*old(cache)),
{
    cache.get(&ino).copied()
}

/// `LruCache::push`: gives a key a value and makes it the last used one. Returns the entry
/// that this displaced: the former one of the key, or the one unused for longest if the
/// cache was full.
#[verifier::external_body]
fn push_open_file(cache: &mut lru::LruCache<i64, (u64, bool)>, ino: i64, entry: (u64, bool)) -> (out:
    Option<(i64, (u64, bool))>)
    ensures
        out == displaced(open_entries(*old(cache)), open_limit(*old(cache)), ino),
        open_entries(*final(cache)) == pushed(
            open_entries(*old(cache)),
            open_limit(*old(cache)),
            ino,
            entry,
        ),
        open_limit(*final(cache)) == open_limit(*old(cache)),
{
    cache.push(ino, entry)
}

/// `LruCache::pop`: removes the entry of a key.
#[verifier::external_body]
fn pop_open_file(cache: &mut lru::LruCache<i64, (u64, bool)>, ino: i64) -> (out: Option<
    (u64, bool),
>)
    ensures
        out == value_of(open_entries(*old(cache)), ino),
        open_entries(*final(cache)) == without(open_entries(*old(cache)), ino),
        open_limit(*final(cache)) == open_limit(*old(cache)),
{
    cache.pop(&ino)
}

/// The entries after one was looked at, which makes it the last used one.
pub open spec fn used<K, V>(entries: Seq<(K, V)>, key: K) -> Seq<(K, V)> {
    match value_of(entries, key) {
        Some(value) => without(entries, key).push((key, value)),
        None => entries,
    }
}

/// What a cached handle is asked for.
#[derive(Clone, Copy, Debug, PartialEq, Eq, Hash, Structural)]
pub enum Authority {
    /// Reading.
    Read,
    /// Reading and writing, or truncating.
    Write,
}

impl Authority {
    /// The flags that a file is opened with.
    pub open spec fn flags(self, bits: OpenBits) -> i32 {
        match self {
            Authority::Read => bits.read_only,
            Authority::Write => bits.read_write,
        }
    }

    /// The flags that a file is opened with.
    pub fn open_flags(self, bits: &OpenBits) -> (flags: i32)
        ensures
            flags == self.flags(*bits),
    {
        match self {
            Authority::Read => bits.read_only,
            Authority::Write => bits.read_write,
        }
    }
}

/// A file is opened as one that can be changed exactly for the authority to write.
pub proof fn only_writers_open_for_writing(authority: Authority, bits: OpenBits)
    requires
        bits.consistent(),
    ensures
        writes(authority.flags(bits), bits) <==> authority == Authority::Write,
{
}

/// An open file, by the number under which its owner keeps it.
#[derive(Clone, Copy, Debug, PartialEq, Eq, Structural)]
pub struct FileId {
    pub number: u64,
}

/// An open file of an inode.
#[derive(Clone, Copy, Debug, PartialEq, Eq, Structural)]
pub struct Handle {
    pub ino: i64,
    pub authority: Authority,
    pub file: FileId,
}

impl Handle {
    pub fn ino(&self) -> (ino: i64)
        ensures
            ino == self.ino,
    {
        self.ino
    }

    pub fn authority(&self) -> (authority: Authority)
        ensures
            authority == self.authority,
    {
        self.authority
    }

    pub fn file(&self) -> (file: &FileId)
        ensures
            *file == self.file,
    {
        &self.file
    }
}

/// The handle that an entry of the open files stands for.
pub open spec fn handle_of(ino: i64, entry: (u64, bool)) -> Handle {
    Handle {
        ino,
        authority: if entry.1 {
            Authority::Write
        } else {
            Authority::Read
        },
        file: FileId { number: entry.0 },
    }
}

fn entry_handle(ino: i64, entry: (u64, bool)) -> (handle: Handle)
    ensures
        handle == handle_of(ino, entry),
{
    Handle {
        ino,
        authority: if entry.1 {
            Authority::Write
        } else {
            Authority::Read
        },
        file: FileId { number: entry.0 },
    }
}

/// A table of handles as a mathematical value.
#[verifier::ext_equal]
pub struct TableModel {
    /// Tokens with inode and stamp, in order of use.
    pub tokens: Seq<(u64, (i64, u64))>,
    pub token_limit: nat,
    /// The stamp of the next use.
    pub clock: u64,
    /// How often tokens were granted or used so far.
    pub uses: nat,
    /// Open files of inodes, in order of use.
    pub open: Seq<(i64, (u64, bool))>,
    pub open_limit: nat,
}

/// The stamp after a stamp.
pub open spec fn next_stamp(clock: u64) -> u64 {
    if clock == u64::MAX {
        0
    } else {
        (clock + 1) as u64
    }
}

/// Whether a token gives write authority over an inode.
pub open spec fn gives_authority(tokens: Seq<(u64, (i64, u64))>, ino: i64, token: u64) -> bool {
    value_of(tokens, token) matches Some(entry) && entry.0 == ino
}

/// Whether no token gives write authority over an inode.
pub open spec fn has_no_token(tokens: Seq<(u64, (i64, u64))>, ino: i64) -> bool {
    forall|token: u64| !gives_authority(tokens, ino, token)
}

/// Whether the later of two tokens in order of use has the later stamp.
pub open spec fn stamps_ascend(tokens: Seq<(u64, (i64, u64))>) -> bool {
    forall|i: int, j: int|
        0 <= i < j < tokens.len() ==> (#[trigger] tokens[i]).1.1 < (#[trigger] tokens[j]).1.1
}

/// Whether all stamps were given before the clock showed `clock`.
pub open spec fn stamps_below(tokens: Seq<(u64, (i64, u64))>, clock: u64) -> bool {
    forall|i: int| 0 <= i < tokens.len() ==> (#[trigger] tokens[i]).1.1 < clock
}

impl TableModel {
    /// Every token and every inode occurs once, and nothing exceeds its limit. Until the clock
    /// wraps, the stamps follow the order of use.
    pub open spec fn wf(self) -> bool {
        &&& self.uses <= u64::MAX ==> self.in_order()
        &&& distinct(self.tokens)
        &&& distinct(self.open)
        &&& self.tokens.len() <= self.token_limit
        &&& self.open.len() <= self.open_limit
        &&& 0 < self.token_limit
        &&& 0 < self.open_limit
    }

    /// The clock counts the uses, and a token that was used later has the later stamp.
    pub open spec fn in_order(self) -> bool {
        &&& self.clock == self.uses
        &&& stamps_ascend(self.tokens)
        &&& stamps_below(self.tokens, self.clock)
    }

    /// After a token was granted that nobody has.
    pub open spec fn granted(self, ino: i64, token: u64) -> TableModel {
        TableModel {
            tokens: pushed(self.tokens, self.token_limit, token, (ino, self.clock)),
            clock: next_stamp(self.clock),
            uses: self.uses + 1,
            ..self
        }
    }

    /// After a token was used.
    pub open spec fn touched(self, token: u64) -> TableModel {
        TableModel {
            tokens: match value_of(self.tokens, token) {
                Some(entry) => without(self.tokens, token).push((token, (entry.0, self.clock))),
                None => self.tokens,
            },
            clock: next_stamp(self.clock),
            uses: self.uses + 1,
            ..self
        }
    }

    /// After an inode lost its tokens and its open file. The other tokens keep their order.
    pub open spec fn invalidated(self, ino: i64) -> TableModel {
        TableModel {
            tokens: self.tokens.filter(of_others(ino)),
            open: without(self.open, ino),
            ..self
        }
    }

    /// After the open file of an inode was looked at.
    pub open spec fn looked_up(self, ino: i64) -> TableModel {
        TableModel { open: used(self.open, ino), ..self }
    }

    /// Whether the open file of an inode serves a request.
    pub open spec fn serves(self, ino: i64, authority: Authority) -> bool {
        value_of(self.open, ino) matches Some(entry) && (authority is Read || entry.1)
    }
}

/// The tokens that other inodes than this one have.
pub open spec fn of_others(ino: i64) -> spec_fn((u64, (i64, u64))) -> bool {
    |entry: (u64, (i64, u64))| entry.1.0 != ino
}

/// Whether the index lists a token under an inode.
spec fn listed(index: Map<i64, Vec<u64>>, ino: i64, token: u64) -> bool {
    index.contains_key(ino) && index[ino]@.contains(token)
}

/// Every list of the index holds something, and nothing twice.
spec fn lists_ok(index: Map<i64, Vec<u64>>) -> bool {
    forall|ino: i64| #[trigger]
        index.contains_key(ino) ==> index[ino]@.len() > 0 && index[ino]@.no_duplicates()
}

/// The index lists exactly the tokens that give authority.
spec fn indexes(index: Map<i64, Vec<u64>>, tokens: Seq<(u64, (i64, u64))>) -> bool {
    forall|ino: i64, token: u64| #[trigger]
        listed(index, ino, token) <==> gives_authority(tokens, ino, token)
}

/// Tokens of write authority and open files. Dropping the least recently used of each keeps
/// the table within its limits.
pub struct HandleTable {
    tokens: lru::LruCache<u64, (i64, u64)>,
    tokens_by_ino: HashMap<i64, Vec<u64>>,
    token_clock: u64,
    uses: Ghost<nat>,
    open_handles: lru::LruCache<i64, (u64, bool)>,
}

impl View for HandleTable {
    type V = TableModel;

    closed spec fn view(&self) -> TableModel {
        TableModel {
            tokens: token_entries(self.tokens),
            token_limit: token_limit(self.tokens),
            clock: self.token_clock,
            uses: self.uses@,
            open: open_entries(self.open_handles),
            open_limit: open_limit(self.open_handles),
        }
    }
}

fn unlist_token(index: &mut HashMap<i64, Vec<u64>>, ino: i64, token: u64)
    requires
        lists_ok(old(index)@),
    ensures
        lists_ok(final(index)@),
        forall|i: i64, t: u64| #[trigger]
            listed(final(index)@, i, t) <==> listed(old(index)@, i, t) && !(i == ino && t
                == token),
{
    let ghost before = index@;
    if let Some(mut list) = index.remove(&ino) {
        let ghost whole = list@;
        let len: usize = list.len();
        let mut at: usize = 0;
        while at < len && list[at] != token
            invariant
                len == list@.len(),
                at <= len,
                list@ == whole,
                forall|k: int| 0 <= k < at ==> whole[k] != token,
            decreases len - at,
        {
            at += 1;
        }
        if at < len {
            list.remove(at);
            assert(list@ =~= whole.remove(at as int));
            assert forall|t: u64| #[trigger]
                list@.contains(t) <==> whole.contains(t) && t != token by {
                if list@.contains(t) {
                    let k = choose|k: int| 0 <= k < list@.len() && list@[k] == t;
                    let from = if k < at {
                        k
                    } else {
                        k + 1
                    };
                    assert(whole[from] == t);
                    assert(whole[at as int] == token);
                }
                if whole.contains(t) && t != token {
                    let k = choose|k: int| 0 <= k < whole.len() && whole[k] == t;
                    let to = if k < at {
                        k
                    } else {
                        k - 1
                    };
                    assert(list@[to] == t);
                }
            }
        } else {
            assert forall|t: u64| #[trigger]
                list@.contains(t) <==> whole.contains(t) && t != token by {}
        }
        assert(list@.no_duplicates());
        if list.len() > 0 {
            index.insert(ino, list);
            assert(index@ == before.insert(ino, list));
        } else {
            assert(forall|t: u64| !list@.contains(t));
            assert(index@ == before.remove(ino));
            assert forall|i: i64, t: u64| #[trigger]
                listed(index@, i, t) <==> listed(before, i, t) && !(i == ino && t == token) by {
                if i == ino && listed(before, i, t) && t != token {
                    assert(whole.contains(t));
                    assert(list@.contains(t));
                }
            }
        }
    } else {
        assert(index@ =~= before);
    }
}

fn list_token(index: &mut HashMap<i64, Vec<u64>>, ino: i64, token: u64)
    requires
        lists_ok(old(index)@),
        !listed(old(index)@, ino, token),
    ensures
        lists_ok(final(index)@),
        forall|i: i64, t: u64| #[trigger]
            listed(final(index)@, i, t) <==> listed(old(index)@, i, t) || (i == ino && t == token),
{
    let ghost before = index@;
    let mut list: Vec<u64> = match index.remove(&ino) {
        Some(list) => list,
        None => Vec::new(),
    };
    let ghost whole = list@;
    list.push(token);
    let ghost last = whole.len() as int;
    assert(list@[last] == token);
    assert forall|t: u64| #[trigger]
        list@.contains(t) <==> whole.contains(t) || t == token by {
        if whole.contains(t) {
            let k = choose|k: int| 0 <= k < whole.len() && whole[k] == t;
            assert(list@[k] == t);
        }
    }
    index.insert(ino, list);
    assert(index@ =~= before.insert(ino, list));
}

impl HandleTable {
    /// Every token and open file occurs once, within the limits, and can be found by inode.
    pub closed spec fn wf(self) -> bool {
        &&& self@.wf()
        &&& lists_ok(self.tokens_by_ino@)
        &&& indexes(self.tokens_by_ino@, token_entries(self.tokens))
    }

    /// What callers may know of a table that is well-formed.
    pub proof fn known(&self)
        requires
            self.wf(),
        ensures
            self@.wf(),
    {
    }

    /// An empty table that holds at most so many tokens and open files.
    pub fn with_limits(token_capacity: usize, open_capacity: usize) -> (table: HandleTable)
        requires
            fits_memory(token_capacity),
            fits_memory(open_capacity),
        ensures
            table.wf(),
            table@ == (TableModel {
                tokens: Seq::empty(),
                token_limit: token_capacity as nat,
                clock: 0,
                uses: 0,
                open: Seq::empty(),
                open_limit: open_capacity as nat,
            }),
    {
        let table = HandleTable {
            tokens: new_tokens(token_capacity),
            tokens_by_ino: HashMap::new(),
            token_clock: 0,
            uses: Ghost(0),
            open_handles: new_open_files(open_capacity),
        };
        assert(!has_key(Seq::<(u64, (i64, u64))>::empty(), 0u64));
        table
    }

    fn next_token_stamp(&mut self) -> (stamp: u64)
        ensures
            stamp == old(self).token_clock,
            final(self).token_clock == next_stamp(old(self).token_clock),
            final(self).uses@ == old(self).uses@ + 1,
            final(self).tokens == old(self).tokens,
            final(self).tokens_by_ino == old(self).tokens_by_ino,
            final(self).open_handles == old(self).open_handles,
    {
        let stamp: u64 = self.token_clock;
        self.token_clock = self.token_clock.wrapping_add(1);
        self.uses = Ghost(self.uses@ + 1);
        stamp
    }

    fn insert_token(&mut self, ino: i64, token: u64)
        requires
            old(self).wf(),
            !has_key(old(self)@.tokens, token),
        ensures
            final(self).wf(),
            final(self)@ == old(self)@.granted(ino, token),
    {
        let ghost before = self@;
        let ghost index = self.tokens_by_ino@;
        let stamp: u64 = self.next_token_stamp();
        let ghost full = before.tokens.len() == before.token_limit;
        let ghost dropped = before.tokens[0];
        let ghost kept = if full {
            before.tokens.drop_first()
        } else {
            before.tokens
        };
        proof {
            if full {
                lemma_value_at(before.tokens, 0);
                first_dropped(before.tokens, token);
            }
            appended_key(kept, token, (ino, stamp), token);
            lemma_grants_keep_order(before, ino, token);
        }
        match push_token(&mut self.tokens, token, (ino, stamp)) {
            Some((evicted, entry)) => {
                unlist_token(&mut self.tokens_by_ino, entry.0, evicted);
            },
            None => {},
        }
        assert(token_entries(self.tokens) == kept.push((token, (ino, stamp))));
        assert forall|i: i64, t: u64| #[trigger]
            listed(self.tokens_by_ino@, i, t) <==> gives_authority(kept, i, t) by {
            assert(listed(index, i, t) <==> gives_authority(before.tokens, i, t));
            if full {
                first_dropped(before.tokens, t);
            }
        }
        assert(!listed(self.tokens_by_ino@, ino, token));
        let ghost middle = self.tokens_by_ino@;
        list_token(&mut self.tokens_by_ino, ino, token);
        assert forall|i: i64, t: u64| #[trigger]
            listed(self.tokens_by_ino@, i, t) <==> gives_authority(
                token_entries(self.tokens),
                i,
                t,
            ) by {
            assert(listed(middle, i, t) <==> gives_authority(kept, i, t));
            appended_key(kept, token, (ino, stamp), t);
        }
    }

    fn touch_token(&mut self, token: u64)
        requires
            old(self).wf(),
        ensures
            final(self).wf(),
            final(self)@ == old(self)@.touched(token),
    {
        let ghost before = self@;
        let ghost index = self.tokens_by_ino@;
        let stamp: u64 = self.next_token_stamp();
        if let Some(entry) = token_mut(&mut self.tokens, token) {
            entry.1 = stamp;
        }
        assert(self@ =~= before.touched(token));
        proof {
            lemma_uses_keep_order(before, token);
            if has_key(before.tokens, token) {
                let kept = without(before.tokens, token);
                let owner = before.tokens[place(before.tokens, token)].1.0;
                without_drops_one_key(before.tokens, token, token);
                appended_key(kept, token, (owner, stamp), token);
                assert forall|i: i64, t: u64| #[trigger]
                    listed(self.tokens_by_ino@, i, t) <==> gives_authority(
                        self@.tokens,
                        i,
                        t,
                    ) by {
                    assert(listed(index, i, t) <==> gives_authority(before.tokens, i, t));
                    without_drops_one_key(before.tokens, token, t);
                    appended_key(kept, token, (owner, stamp), t);
                }
            }
        }
    }

    /// Grants a token made by the caller. A token that the table already holds is refused,
    /// so that no authority is replaced.
    pub fn try_grant_write_authority_with_token(&mut self, ino: i64, token: u64) -> (granted: bool)
        requires
            old(self).wf(),
        ensures
            final(self).wf(),
            granted == !has_key(old(self)@.tokens, token),
            granted ==> final(self)@ == old(self)@.granted(ino, token),
            !granted ==> final(self)@ == old(self)@,
    {
        if peek_token(&self.tokens, token).is_some() {
            return false;
        }
        self.insert_token(ino, token);
        true
    }

    /// Whether a token gives write authority over an inode, which counts as a use of it.
    pub fn has_write_authority(&mut self, ino: i64, token: u64) -> (authorized: bool)
        requires
            old(self).wf(),
        ensures
            final(self).wf(),
            authorized == gives_authority(old(self)@.tokens, ino, token),
            authorized ==> final(self)@ == old(self)@.touched(token),
            !authorized ==> final(self)@ == old(self)@,
    {
        let authorized: bool = match peek_token(&self.tokens, token) {
            Some(entry) => entry.0 == ino,
            None => false,
        };
        if authorized {
            self.touch_token(token);
        }
        authorized
    }

    /// The token of an inode with the latest stamp, if it has one, which counts as a use.
    /// Until the clock wraps, that is the token of the inode that was granted or used last.
    pub fn authority_token_for_ino(&mut self, ino: i64) -> (found: Option<u64>)
        requires
            old(self).wf(),
        ensures
            final(self).wf(),
            match found {
                Some(token) => gives_authority(old(self)@.tokens, ino, token) && (forall|t: u64|
                    gives_authority(old(self)@.tokens, ino, t) ==> #[trigger] value_of(
                        old(self)@.tokens,
                        t,
                    )->Some_0.1 <= value_of(old(self)@.tokens, token)->Some_0.1)
                    && final(self)@ == old(self)@.touched(token) && (old(self)@.uses <= u64::MAX
                    ==> is_last_of(old(self)@.tokens, ino, token)),
                None => final(self)@ == old(self)@ && has_no_token(old(self)@.tokens, ino),
            },
    {
        let ghost before = self@;
        let ghost index = self.tokens_by_ino@;
        let mut best: Option<(u64, u64)> = None;
        if let Some(list) = self.tokens_by_ino.get(&ino) {
            let len: usize = list.len();
            let mut i: usize = 0;
            while i < len
                invariant
                    len == list@.len(),
                    i <= len,
                    index.contains_key(ino),
                    *list == index[ino],
                    indexes(index, before.tokens),
                    token_entries(self.tokens) == before.tokens,
                    i > 0 ==> best is Some,
                    best matches Some((token, stamp)) ==> gives_authority(
                        before.tokens,
                        ino,
                        token,
                    ) && value_of(before.tokens, token)->Some_0.1 == stamp && forall|k: int|
                        0 <= k < i ==> value_of(
                            before.tokens,
                            #[trigger] list@[k],
                        )->Some_0.1 <= stamp,
                decreases len - i,
            {
                let token: u64 = list[i];
                assert(list@[i as int] == token);
                assert(listed(index, ino, token));
                if let Some(entry) = peek_token(&self.tokens, token) {
                    match best {
                        Some((_, stamp)) => {
                            if entry.1 >= stamp {
                                best = Some((token, entry.1));
                            }
                        },
                        None => {
                            best = Some((token, entry.1));
                        },
                    }
                }
                i += 1;
            }
            assert forall|t: u64| gives_authority(before.tokens, ino, t) implies best is Some
                && #[trigger] value_of(before.tokens, t)->Some_0.1 <= best->Some_0.1 by {
                assert(listed(index, ino, t));
                let k = choose|k: int| 0 <= k < list@.len() && list@[k] == t;
                assert(value_of(before.tokens, list@[k])->Some_0.1 <= best->Some_0.1);
            }
            assert(list@.len() > 0);
        } else {
            assert forall|t: u64| !gives_authority(before.tokens, ino, t) by {
                assert(!listed(index, ino, t));
            }
        }
        match best {
            Some((token, _)) => {
                proof {
                    if before.uses <= u64::MAX {
                        lemma_latest_is_last(before.tokens, ino, token);
                    }
                }
                self.touch_token(token);
                Some(token)
            },
            None => None,
        }
    }

    /// Takes all tokens and the open file of an inode away. Returns the file.
    pub fn invalidate_ino(&mut self, ino: i64) -> (dropped: Option<FileId>)
        requires
            old(self).wf(),
        ensures
            final(self).wf(),
            final(self)@ == old(self)@.invalidated(ino),
            dropped == match value_of(old(self)@.open, ino) {
                Some(entry) => Some(FileId { number: entry.0 }),
                None => None,
            },
    {
        let ghost before = self@;
        let ghost index = self.tokens_by_ino@;
        let ghost gone = of_others(ino);
        match self.tokens_by_ino.remove(&ino) {
            Some(list) => {
                let len: usize = list.len();
                let mut i: usize = 0;
                assert(token_entries(self.tokens) =~= before.tokens.filter(
                    unlisted(list@.take(0)),
                )) by {
                    lemma_filter_all(before.tokens, unlisted(list@.take(0)));
                }
                while i < len
                    invariant
                        len == list@.len(),
                        i <= len,
                        distinct(before.tokens),
                        token_entries(self.tokens) == before.tokens.filter(
                            unlisted(list@.take(i as int)),
                        ),
                        token_limit(self.tokens) == before.token_limit,
                        self.tokens_by_ino@ == index.remove(ino),
                        self.token_clock == before.clock,
                        self.uses@ == before.uses,
                        open_entries(self.open_handles) == before.open,
                        open_limit(self.open_handles) == before.open_limit,
                    decreases len - i,
                {
                    let token: u64 = list[i];
                    proof {
                        let p = unlisted(list@.take(i as int));
                        let q = other_than(token);
                        let r = unlisted(list@.take(i + 1));
                        assert forall|entry: (u64, (i64, u64))| #[trigger]
                            r(entry) == (p(entry) && q(entry)) by {
                            let key = entry.0;
                            let part = list@.take(i as int);
                            let more = list@.take(i + 1);
                            assert(more =~= part.push(token));
                            if part.contains(key) {
                                let k = choose|k: int| 0 <= k < part.len() && part[k] == key;
                                assert(more[k] == key);
                            }
                            if key == token {
                                assert(more[i as int] == key);
                            }
                        }
                        lemma_filter_keeps_distinct(before.tokens, p);
                        lemma_without_filters(before.tokens.filter(p), token);
                        lemma_filter_twice(before.tokens, p, q, r);
                    }
                    pop_token(&mut self.tokens, token);
                    i += 1;
                }
                assert(list@.take(len as int) =~= list@);
                proof {
                    assert forall|k: int| 0 <= k < before.tokens.len() implies unlisted(list@)(
                        #[trigger] before.tokens[k],
                    ) == gone(before.tokens[k]) by {
                        lemma_value_at(before.tokens, k);
                        let token = before.tokens[k].0;
                        assert(listed(index, ino, token) <==> gives_authority(
                            before.tokens,
                            ino,
                            token,
                        ));
                    }
                    lemma_filter_same(before.tokens, unlisted(list@), gone);
                }
            },
            None => {
                assert forall|k: int| 0 <= k < before.tokens.len() implies gone(
                    #[trigger] before.tokens[k],
                ) by {
                    lemma_value_at(before.tokens, k);
                    assert(!listed(index, ino, before.tokens[k].0));
                }
                proof {
                    lemma_filter_all(before.tokens, gone);
                }
                assert(self.tokens_by_ino@ =~= index.remove(ino));
            },
        }
        proof {
            lemma_filter_keeps_distinct(before.tokens, gone);
            if before.uses <= u64::MAX {
                lemma_filter_keeps_stamps(before.tokens, gone, before.clock);
            }
            without_drops_one_key(before.open, ino, ino);
            assert forall|i: i64, t: u64| #[trigger]
                listed(self.tokens_by_ino@, i, t) <==> gives_authority(
                    before.tokens.filter(gone),
                    i,
                    t,
                ) by {
                assert(listed(index, i, t) <==> gives_authority(before.tokens, i, t));
                lemma_filtered_authority(before.tokens, ino, i, t);
            }
        }
        match pop_open_file(&mut self.open_handles, ino) {
            Some(entry) => Some(FileId { number: entry.0 }),
            None => None,
        }
    }

    /// The handle of an inode that serves a request, if one is open. A request to write is
    /// not served by a file opened for reading.
    pub fn cached(&mut self, ino: i64, authority: Authority) -> (handle: Option<Handle>)
        requires
            old(self).wf(),
        ensures
            final(self).wf(),
            final(self)@ == old(self)@.looked_up(ino),
            handle == if old(self)@.serves(ino, authority) {
                Some(handle_of(ino, value_of(old(self)@.open, ino)->Some_0))
            } else {
                None
            },
    {
        proof {
            lemma_used(self@.open, ino, ino);
        }
        match get_open_file(&mut self.open_handles, ino) {
            Some(entry) => {
                let needs_write: bool = match authority {
                    Authority::Write => true,
                    Authority::Read => false,
                };
                if !needs_write || entry.1 {
                    Some(entry_handle(ino, entry))
                } else {
                    None
                }
            },
            None => None,
        }
    }

    /// Takes a file that was opened for a request. If meanwhile a file is open that serves
    /// the request, that one is used. Returns the handle and the file that nothing refers to
    /// any more, if there is one.
    pub fn opened(&mut self, ino: i64, authority: Authority, file: FileId) -> (outcome: (
        Handle,
        Option<FileId>,
    ))
        requires
            old(self).wf(),
        ensures
            final(self).wf(),
            old(self)@.serves(ino, authority) ==> {
                &&& outcome.0 == handle_of(ino, value_of(old(self)@.open, ino)->Some_0)
                &&& outcome.1 == Some(file)
                &&& final(self)@ == old(self)@.looked_up(ino)
            },
            !old(self)@.serves(ino, authority) ==> {
                &&& outcome.0 == (Handle { ino, authority, file })
                &&& outcome.1 == match displaced(
                    old(self)@.looked_up(ino).open,
                    old(self)@.open_limit,
                    ino,
                ) {
                    Some(entry) => Some(FileId { number: entry.1.0 }),
                    None => None,
                }
                &&& final(self)@ == after_open(old(self)@, ino, authority, file)
            },
    {
        if let Some(handle) = self.cached(ino, authority) {
            return (handle, Some(file));
        }
        let needs_write: bool = match authority {
            Authority::Write => true,
            Authority::Read => false,
        };
        proof {
            lemma_pushed(self@.open, self@.open_limit, ino, (file.number, needs_write));
        }
        let dropped: Option<FileId> = match push_open_file(
            &mut self.open_handles,
            ino,
            (file.number, needs_write),
        ) {
            Some((_, entry)) => Some(FileId { number: entry.0 }),
            None => None,
        };
        (Handle { ino, authority, file }, dropped)
    }
}

impl Default for HandleTable {
    fn default() -> (table: HandleTable)
        ensures
            table.wf(),
            table@ == (TableModel {
                tokens: Seq::empty(),
                token_limit: DEFAULT_WRITE_TOKEN_CAPACITY as nat,
                clock: 0,
                uses: 0,
                open: Seq::empty(),
                open_limit: DEFAULT_OPEN_HANDLE_CAPACITY as nat,
            }),
    {
        HandleTable::with_limits(DEFAULT_WRITE_TOKEN_CAPACITY, DEFAULT_OPEN_HANDLE_CAPACITY)
    }
}

/// Whether a token is that of an inode which was granted or used after its other ones.
pub open spec fn is_last_of(tokens: Seq<(u64, (i64, u64))>, ino: i64, token: u64) -> bool {
    &&& gives_authority(tokens, ino, token)
    &&& forall|t: u64|
        #[trigger] gives_authority(tokens, ino, t) ==> place(tokens, t) <= place(tokens, token)
}

proof fn lemma_latest_is_last(tokens: Seq<(u64, (i64, u64))>, ino: i64, token: u64)
    requires
        stamps_ascend(tokens),
        gives_authority(tokens, ino, token),
        forall|t: u64|
            gives_authority(tokens, ino, t) ==> #[trigger] value_of(tokens, t)->Some_0.1
                <= value_of(tokens, token)->Some_0.1,
    ensures
        is_last_of(tokens, ino, token),
{
    assert forall|t: u64| #[trigger] gives_authority(tokens, ino, t) implies place(tokens, t)
        <= place(tokens, token) by {
        assert(value_of(tokens, t)->Some_0.1 <= value_of(tokens, token)->Some_0.1);
        if place(tokens, token) < place(tokens, t) {
            assert(tokens[place(tokens, token)].1.1 < tokens[place(tokens, t)].1.1);
        }
    }
}

proof fn lemma_grants_keep_order(table: TableModel, ino: i64, token: u64)
    requires
        table.wf(),
        !has_key(table.tokens, token),
    ensures
        table.granted(ino, token).uses <= u64::MAX ==> table.granted(ino, token).in_order(),
{
    let after = table.granted(ino, token).tokens;
    if table.uses < u64::MAX {
        let shift: int = if table.tokens.len() == table.token_limit {
            1
        } else {
            0
        };
        assert forall|i: int| 0 <= i < after.len() - 1 implies (#[trigger] after[i])
            == table.tokens[i + shift] by {}
        assert(after.last() == (token, (ino, table.clock)));
    }
}

proof fn lemma_uses_keep_order(table: TableModel, token: u64)
    requires
        table.wf(),
    ensures
        table.touched(token).uses <= u64::MAX ==> table.touched(token).in_order(),
{
    let after = table.touched(token).tokens;
    if table.uses < u64::MAX && has_key(table.tokens, token) {
        let at = place(table.tokens, token);
        assert forall|i: int| 0 <= i < after.len() - 1 implies (#[trigger] after[i])
            == table.tokens[if i < at {
            i
        } else {
            i + 1
        }] by {}
    }
}

/// What passes a filter keeps its order.
proof fn lemma_filter_keeps_stamps(
    tokens: Seq<(u64, (i64, u64))>,
    p: spec_fn((u64, (i64, u64))) -> bool,
    clock: u64,
)
    requires
        stamps_ascend(tokens),
        stamps_below(tokens, clock),
    ensures
        stamps_ascend(tokens.filter(p)),
        stamps_below(tokens.filter(p), clock),
    decreases tokens.len(),
{
    reveal(Seq::filter);
    if tokens.len() > 0 {
        let rest = tokens.drop_last();
        let last = tokens.last();
        assert forall|i: int, j: int| 0 <= i < j < rest.len() implies (#[trigger] rest[i]).1.1 < (
        #[trigger] rest[j]).1.1 by {
            assert(rest[i] == tokens[i] && rest[j] == tokens[j]);
        }
        assert forall|i: int| 0 <= i < rest.len() implies (#[trigger] rest[i]).1.1 < last.1.1 by {
            assert(rest[i] == tokens[i]);
            assert(tokens[tokens.len() - 1] == last);
        }
        assert(last.1.1 < clock) by {
            assert(tokens[tokens.len() - 1] == last);
        }
        lemma_filter_keeps_stamps(rest, p, last.1.1);
    }
}

/// The table after a file that was opened took its place.
pub open spec fn after_open(
    before: TableModel,
    ino: i64,
    authority: Authority,
    file: FileId,
) -> TableModel {
    TableModel {
        open: pushed(
            before.looked_up(ino).open,
            before.open_limit,
            ino,
            (file.number, authority is Write),
        ),
        ..before
    }
}

spec fn unlisted(list: Seq<u64>) -> spec_fn((u64, (i64, u64))) -> bool {
    |entry: (u64, (i64, u64))| !list.contains(entry.0)
}

spec fn other_than(token: u64) -> spec_fn((u64, (i64, u64))) -> bool {
    |entry: (u64, (i64, u64))| entry.0 != token
}

proof fn lemma_filter_all<A>(s: Seq<A>, p: spec_fn(A) -> bool)
    requires
        forall|i: int| 0 <= i < s.len() ==> p(#[trigger] s[i]),
    ensures
        s.filter(p) == s,
    decreases s.len(),
{
    reveal(Seq::filter);
    if s.len() > 0 {
        let rest = s.drop_last();
        assert forall|i: int| 0 <= i < rest.len() implies p(#[trigger] rest[i]) by {
            assert(rest[i] == s[i]);
        }
        lemma_filter_all(rest, p);
        assert(p(s[s.len() - 1]));
        assert(rest.push(s.last()) =~= s);
    }
}

proof fn lemma_filter_same<A>(s: Seq<A>, p: spec_fn(A) -> bool, q: spec_fn(A) -> bool)
    requires
        forall|i: int| 0 <= i < s.len() ==> p(#[trigger] s[i]) == q(s[i]),
    ensures
        s.filter(p) == s.filter(q),
    decreases s.len(),
{
    reveal(Seq::filter);
    if s.len() > 0 {
        let rest = s.drop_last();
        assert forall|i: int| 0 <= i < rest.len() implies p(#[trigger] rest[i]) == q(rest[i]) by {
            assert(rest[i] == s[i]);
        }
        lemma_filter_same(rest, p, q);
        assert(p(s[s.len() - 1]) == q(s[s.len() - 1]));
    }
}

proof fn lemma_filter_twice(
    s: Seq<(u64, (i64, u64))>,
    p: spec_fn((u64, (i64, u64))) -> bool,
    q: spec_fn((u64, (i64, u64))) -> bool,
    r: spec_fn((u64, (i64, u64))) -> bool,
)
    requires
        forall|entry: (u64, (i64, u64))| #[trigger] r(entry) == (p(entry) && q(entry)),
    ensures
        s.filter(p).filter(q) == s.filter(r),
    decreases s.len(),
{
    reveal(Seq::filter);
    if s.len() > 0 {
        let rest = s.drop_last();
        lemma_filter_twice(rest, p, q, r);
        if p(s.last()) {
            let once = rest.filter(p).push(s.last());
            assert(once.drop_last() =~= rest.filter(p));
            assert(once.last() == s.last());
        }
        assert(r(s.last()) == (p(s.last()) && q(s.last())));
    }
}

/// What passes a filter was there before, and in the same order.
proof fn lemma_filter_origin(
    s: Seq<(u64, (i64, u64))>,
    p: spec_fn((u64, (i64, u64))) -> bool,
    key: u64,
)
    requires
        distinct(s),
    ensures
        distinct(s.filter(p)),
        value_of(s.filter(p), key) == match value_of(s, key) {
            Some(value) => if p((key, value)) {
                Some(value)
            } else {
                None
            },
            None => None,
        },
        s.filter(p).len() <= s.len(),
    decreases s.len(),
{
    reveal(Seq::filter);
    if s.len() > 0 {
        let rest = s.drop_last();
        let last = s.last();
        assert forall|i: int, j: int| 0 <= i < j < rest.len() implies (#[trigger] rest[i]).0 != (
        #[trigger] rest[j]).0 by {
            assert(rest[i] == s[i] && rest[j] == s[j]);
        }
        assert(rest.push(last) =~= s);
        assert(!has_key(rest, last.0)) by {
            if has_key(rest, last.0) {
                let i = place(rest, last.0);
                assert(s[i].0 == s[s.len() - 1].0);
            }
        }
        lemma_filter_origin(rest, p, key);
        lemma_filter_origin(rest, p, last.0);
        appended_key(rest, last.0, last.1, key);
        if p(last) {
            assert(!has_key(rest.filter(p), last.0));
            appended_key(rest.filter(p), last.0, last.1, key);
        } else if key == last.0 {
            assert(value_of(rest, key) is None);
        }
    }
}

proof fn lemma_filter_keeps_distinct(
    s: Seq<(u64, (i64, u64))>,
    p: spec_fn((u64, (i64, u64))) -> bool,
)
    requires
        distinct(s),
    ensures
        distinct(s.filter(p)),
        s.filter(p).len() <= s.len(),
{
    lemma_filter_origin(s, p, 0);
}

proof fn lemma_filtered_authority(tokens: Seq<(u64, (i64, u64))>, ino: i64, i: i64, t: u64)
    requires
        distinct(tokens),
    ensures
        gives_authority(tokens.filter(of_others(ino)), i, t) <==> gives_authority(tokens, i, t)
            && i != ino,
{
    lemma_filter_origin(tokens, of_others(ino), t);
}

/// Removing a key keeps the entries of the others.
proof fn lemma_without_filters(s: Seq<(u64, (i64, u64))>, key: u64)
    requires
        distinct(s),
    ensures
        without(s, key) == s.filter(other_than(key)),
    decreases s.len(),
{
    let q = other_than(key);
    reveal(Seq::filter);
    if !has_key(s, key) {
        assert forall|i: int| 0 <= i < s.len() implies q(#[trigger] s[i]) by {}
        lemma_filter_all(s, q);
    } else {
        let at = place(s, key);
        let rest = s.drop_last();
        assert forall|i: int, j: int| 0 <= i < j < rest.len() implies (#[trigger] rest[i]).0 != (
        #[trigger] rest[j]).0 by {
            assert(rest[i] == s[i] && rest[j] == s[j]);
        }
        if at == s.len() - 1 {
            assert forall|i: int| 0 <= i < rest.len() implies q(#[trigger] rest[i]) by {
                assert(rest[i] == s[i]);
                assert(s[i].0 != s[at].0);
            }
            lemma_filter_all(rest, q);
            assert(s.remove(at) =~= rest);
        } else {
            assert(rest[at] == s[at]);
            lemma_value_at(rest, at);
            lemma_without_filters(rest, key);
            assert(s.last().0 != key) by {
                assert(s[at].0 != s[s.len() - 1].0);
            }
            assert(s.remove(at) =~= rest.remove(at).push(s.last()));
        }
    }
}

pub proof fn lemma_used<K, V>(entries: Seq<(K, V)>, key: K, other: K)
    requires
        distinct(entries),
    ensures
        distinct(used(entries, key)),
        used(entries, key).len() == entries.len(),
        value_of(used(entries, key), other) == value_of(entries, other),
{
    without_drops_one_key(entries, key, other);
    if let Some(value) = value_of(entries, key) {
        appended_key(without(entries, key), key, value, other);
    }
}

pub proof fn lemma_pushed<K, V>(entries: Seq<(K, V)>, limit: nat, key: K, value: V)
    requires
        distinct(entries),
        entries.len() <= limit,
        0 < limit,
    ensures
        distinct(pushed(entries, limit, key, value)),
        pushed(entries, limit, key, value).len() <= limit,
        value_of(pushed(entries, limit, key, value), key) == Some(value),
{
    if !has_key(entries, key) && entries.len() == limit {
        first_dropped(entries, key);
        if entries[0].0 == key {
            lemma_value_at(entries, 0);
        }
        appended_key(entries.drop_first(), key, value, key);
    } else {
        without_drops_one_key(entries, key, key);
        appended_key(without(entries, key), key, value, key);
    }
}

/// A token that was just granted gives its authority.
pub proof fn granted_tokens_give_authority(table: TableModel, ino: i64, token: u64)
    requires
        table.wf(),
        !has_key(table.tokens, token),
    ensures
        table.granted(ino, token).wf(),
        gives_authority(table.granted(ino, token).tokens, ino, token),
{
    lemma_grants_keep_order(table, ino, token);
    lemma_pushed(table.tokens, table.token_limit, token, (ino, table.clock));
}

/// Granting a token takes authority from no one but the token unused for longest, and from
/// that one only if the table is full.
pub proof fn only_the_longest_unused_token_is_dropped(
    table: TableModel,
    ino: i64,
    token: u64,
    other_ino: i64,
    other: u64,
)
    requires
        table.wf(),
        !has_key(table.tokens, token),
        gives_authority(table.tokens, other_ino, other),
        table.tokens.len() < table.token_limit || table.tokens[0].0 != other,
    ensures
        gives_authority(table.granted(ino, token).tokens, other_ino, other),
{
    if table.tokens.len() == table.token_limit {
        first_dropped(table.tokens, other);
        first_dropped(table.tokens, token);
        assert(!has_key(table.tokens.drop_first(), token));
        appended_key(table.tokens.drop_first(), token, (ino, table.clock), other);
    } else {
        appended_key(table.tokens, token, (ino, table.clock), other);
    }
}

/// Using a token keeps every authority, adds and removes no token, and makes the token the last
/// one to be dropped.
pub proof fn using_a_token_protects_it(table: TableModel, token: u64, ino: i64, other: u64)
    requires
        table.wf(),
        has_key(table.tokens, token),
    ensures
        table.touched(token).wf(),
        table.touched(token).tokens.last().0 == token,
        table.touched(token).tokens.len() == table.tokens.len(),
        has_key(table.touched(token).tokens, other) == has_key(table.tokens, other),
        gives_authority(table.touched(token).tokens, ino, other) == gives_authority(
            table.tokens,
            ino,
            other,
        ),
{
    let owner = table.tokens[place(table.tokens, token)].1.0;
    without_drops_one_key(table.tokens, token, other);
    appended_key(without(table.tokens, token), token, (owner, table.clock), other);
    lemma_uses_keep_order(table, token);
}

/// In a table for more than one token, a token that was just used outlives the next grant.
pub proof fn a_used_token_outlives_the_next_grant(
    table: TableModel,
    owner: i64,
    token: u64,
    ino: i64,
    granted: u64,
)
    requires
        table.wf(),
        table.token_limit > 1,
        gives_authority(table.tokens, owner, token),
        !has_key(table.tokens, granted),
    ensures
        gives_authority(table.touched(token).granted(ino, granted).tokens, owner, token),
{
    let used = table.touched(token);
    using_a_token_protects_it(table, token, owner, token);
    using_a_token_protects_it(table, token, owner, granted);
    if used.tokens.len() > 1 {
        assert(used.tokens[0].0 != used.tokens[used.tokens.len() - 1].0);
    }
    only_the_longest_unused_token_is_dropped(used, ino, granted, owner, token);
}

/// An inode that was invalidated gives no authority and has no open file. Other inodes keep
/// their tokens and files.
pub proof fn invalidation_takes_exactly_the_inode_away(
    table: TableModel,
    ino: i64,
    other_ino: i64,
    token: u64,
)
    requires
        table.wf(),
    ensures
        table.invalidated(ino).wf(),
        !gives_authority(table.invalidated(ino).tokens, ino, token),
        value_of(table.invalidated(ino).open, ino) is None,
        other_ino != ino ==> gives_authority(table.invalidated(ino).tokens, other_ino, token)
            == gives_authority(table.tokens, other_ino, token),
        other_ino != ino ==> value_of(table.invalidated(ino).open, other_ino) == value_of(
            table.open,
            other_ino,
        ),
{
    if table.uses <= u64::MAX {
        lemma_filter_keeps_stamps(table.tokens, of_others(ino), table.clock);
    }
    let gone = of_others(ino);
    lemma_filter_keeps_distinct(table.tokens, gone);
    lemma_filtered_authority(table.tokens, ino, ino, token);
    lemma_filtered_authority(table.tokens, ino, other_ino, token);
    without_drops_one_key(table.open, ino, other_ino);
}

/// A file opened for writing then serves readers and writers alike: a read after a write
/// does not see a file that was opened before it.
pub proof fn a_write_open_serves_all_that_follow(
    table: TableModel,
    ino: i64,
    file: FileId,
    authority: Authority,
)
    requires
        table.wf(),
        !table.serves(ino, Authority::Write),
    ensures
        after_open(table, ino, Authority::Write, file).serves(ino, authority),
        value_of(after_open(table, ino, Authority::Write, file).open, ino) == Some(
            (file.number, true),
        ),
{
    lemma_used(table.open, ino, ino);
    lemma_pushed(table.looked_up(ino).open, table.open_limit, ino, (file.number, true));
}

} // verus!
