//! What write authority and open files promise.
use crate::semantics::handles::{
    Authority, FileId, Handle, HandleTable, TableModel, gives_authority,
    granted_tokens_give_authority, invalidation_takes_exactly_the_inode_away, lemma_pushed,
    lemma_used, only_the_longest_unused_token_is_dropped, using_a_token_protects_it,
};
use crate::semantics::recency::{lemma_value_at, place, value_of};
use vstd::prelude::*;

verus! {

/// Whether a table has a token for an inode.
pub open spec fn owns(table: TableModel, ino: i64, token: u64) -> bool {
    exists|i: int|
        0 <= i < table.tokens.len() && (#[trigger] table.tokens[i]).0 == token
            && table.tokens[i].1.0 == ino
}

/// Whether a table has the open file of an inode, for writing or only for reading.
pub open spec fn has_open(table: TableModel, ino: i64, file: u64, writable: bool) -> bool {
    exists|i: int|
        0 <= i < table.open.len() && (#[trigger] table.open[i]) == (ino, (file, writable))
}

proof fn lemma_owns(table: TableModel, ino: i64, token: u64)
    requires
        table.wf(),
    ensures
        owns(table, ino, token) <==> gives_authority(table.tokens, ino, token),
{
    if owns(table, ino, token) {
        let i = choose|i: int|
            0 <= i < table.tokens.len() && (#[trigger] table.tokens[i]).0 == token
                && table.tokens[i].1.0 == ino;
        lemma_value_at(table.tokens, i);
    }
    if gives_authority(table.tokens, ino, token) {
        let i = place(table.tokens, token);
        assert(table.tokens[i].0 == token && table.tokens[i].1.0 == ino);
    }
}

proof fn lemma_has_open(table: TableModel, ino: i64, file: u64, writable: bool)
    requires
        table.wf(),
    ensures
        has_open(table, ino, file, writable) <==> value_of(table.open, ino) == Some(
            (file, writable),
        ),
{
    if has_open(table, ino, file, writable) {
        let i = choose|i: int|
            0 <= i < table.open.len() && (#[trigger] table.open[i]) == (ino, (file, writable));
        lemma_value_at(table.open, i);
    }
    if value_of(table.open, ino) == Some((file, writable)) {
        let i = place(table.open, ino);
        assert(table.open[i].0 == ino);
        assert(table.open[i] == (ino, (file, writable)));
    }
}

/// A token is granted once. From then on it gives authority over its inode, and over no
/// other.
pub proof fn a_granted_token_gives_authority_over_its_inode(
    table: &mut HandleTable,
    ino: i64,
    token: u64,
    granted: bool,
    other: i64,
)
    requires
        old(table).wf(),
        call_ensures(
            HandleTable::try_grant_write_authority_with_token,
            (table, ino, token),
            granted,
        ),
    ensures
        granted <==> forall|i: int|
            0 <= i < old(table)@.tokens.len() ==> (#[trigger] old(table)@.tokens[i]).0 != token,
        granted ==> owns(final(table)@, ino, token),
        granted && other != ino ==> !owns(final(table)@, other, token),
        !granted ==> final(table)@ == old(table)@,
        final(table)@.open == old(table)@.open,
{
    old(table).known();
    final(table).known();
    if granted {
        granted_tokens_give_authority(old(table)@, ino, token);
        lemma_owns(final(table)@, ino, token);
        lemma_owns(final(table)@, other, token);
    }
}

/// A grant takes no other token away while there is room, and only the one unused for
/// longest when there is none.
pub proof fn a_grant_takes_at_most_one_token(
    table: &mut HandleTable,
    ino: i64,
    token: u64,
    granted: bool,
    other_ino: i64,
    other: u64,
)
    requires
        old(table).wf(),
        call_ensures(
            HandleTable::try_grant_write_authority_with_token,
            (table, ino, token),
            granted,
        ),
        owns(old(table)@, other_ino, other),
    ensures
        old(table)@.tokens.len() < old(table)@.token_limit ==> owns(
            final(table)@,
            other_ino,
            other,
        ),
        old(table)@.tokens[0].0 != other ==> owns(final(table)@, other_ino, other),
{
    old(table).known();
    final(table).known();
    lemma_owns(old(table)@, other_ino, other);
    lemma_owns(final(table)@, other_ino, other);
    if granted && (old(table)@.tokens.len() < old(table)@.token_limit || old(table)@.tokens[0].0 != other) {
        only_the_longest_unused_token_is_dropped(
            old(table)@,
            ino,
            token,
            other_ino,
            other,
        );
    }
}

/// Authority is there exactly where its token is in the table for that inode. Asking keeps
/// every authority, and makes the token that was used the last one to be dropped.
pub proof fn authority_is_what_was_granted(
    table: &mut HandleTable,
    ino: i64,
    token: u64,
    authorized: bool,
    other_ino: i64,
    other: u64,
)
    requires
        old(table).wf(),
        call_ensures(HandleTable::has_write_authority, (table, ino, token), authorized),
    ensures
        authorized <==> owns(old(table)@, ino, token),
        owns(final(table)@, other_ino, other) <==> owns(old(table)@, other_ino, other),
        authorized ==> final(table)@.tokens.last().0 == token,
        final(table)@.tokens.len() == old(table)@.tokens.len(),
        final(table)@.open == old(table)@.open,
{
    old(table).known();
    final(table).known();
    lemma_owns(old(table)@, ino, token);
    lemma_owns(old(table)@, other_ino, other);
    lemma_owns(final(table)@, other_ino, other);
    if authorized {
        using_a_token_protects_it(old(table)@, token, other_ino, other);
    }
}

/// A token is found for an inode exactly where it has one, and it is the one of its own
/// that was used last.
pub proof fn a_token_found_for_an_inode_is_its_last_used(
    table: &mut HandleTable,
    ino: i64,
    found: Option<u64>,
    token: u64,
    i: int,
    j: int,
)
    requires
        old(table).wf(),
        call_ensures(HandleTable::authority_token_for_ino, (table, ino), found),
    ensures
        found is Some ==> owns(old(table)@, ino, found->0),
        found is Some ==> owns(final(table)@, ino, found->0),
        found is None ==> !owns(old(table)@, ino, token),
        found is None ==> final(table)@ == old(table)@,
        found is Some && old(table)@.uses <= u64::MAX && 0 <= i < old(table)@.tokens.len() && 0
            <= j < old(table)@.tokens.len() && old(table)@.tokens[i].1.0 == ino && old(table)@.tokens[j].0 == found->0 ==> i <= j,
        owns(final(table)@, ino, token) <==> owns(old(table)@, ino, token),
{
    old(table).known();
    final(table).known();
    lemma_owns(old(table)@, ino, token);
    lemma_owns(final(table)@, ino, token);
    if found is Some {
        lemma_owns(old(table)@, ino, found->0);
        lemma_owns(final(table)@, ino, found->0);
        using_a_token_protects_it(old(table)@, found->0, ino, token);
        using_a_token_protects_it(old(table)@, found->0, ino, found->0);
        let tokens = old(table)@.tokens;
        if 0 <= i < tokens.len() && 0 <= j < tokens.len() && tokens[i].1.0 == ino && tokens[j].0
            == found->0 && old(table)@.uses <= u64::MAX {
            lemma_value_at(tokens, i);
            lemma_value_at(tokens, j);
            assert(gives_authority(tokens, ino, tokens[i].0));
        }
    }
}

/// An inode that is invalidated loses its tokens and its open file, which is handed back
/// to be closed. No other inode loses anything.
pub proof fn an_invalidated_inode_loses_what_it_had(
    table: &mut HandleTable,
    ino: i64,
    dropped: Option<FileId>,
    other: i64,
    token: u64,
    file: u64,
    writable: bool,
)
    requires
        old(table).wf(),
        call_ensures(HandleTable::invalidate_ino, (table, ino), dropped),
    ensures
        !owns(final(table)@, ino, token),
        !has_open(final(table)@, ino, file, writable),
        has_open(old(table)@, ino, file, writable) ==> dropped == Some(FileId { number: file }),
        dropped is Some ==> has_open(old(table)@, ino, dropped->0.number, true) || has_open(
            old(table)@,
            ino,
            dropped->0.number,
            false,
        ),
        other != ino ==> (owns(final(table)@, other, token) <==> owns(
            old(table)@,
            other,
            token,
        )),
        other != ino ==> (has_open(final(table)@, other, file, writable) <==> has_open(
            old(table)@,
            other,
            file,
            writable,
        )),
{
    old(table).known();
    final(table).known();
    lemma_owns(final(table)@, ino, token);
    lemma_owns(final(table)@, other, token);
    lemma_owns(old(table)@, other, token);
    lemma_has_open(final(table)@, ino, file, writable);
    lemma_has_open(old(table)@, ino, file, writable);
    lemma_has_open(final(table)@, other, file, writable);
    lemma_has_open(old(table)@, other, file, writable);
    if dropped is Some {
        let entry = value_of(old(table)@.open, ino)->0;
        assert(entry == (dropped->0.number, true) || entry == (dropped->0.number, false));
        lemma_has_open(old(table)@, ino, dropped->0.number, true);
        lemma_has_open(old(table)@, ino, dropped->0.number, false);
    }
    invalidation_takes_exactly_the_inode_away(old(table)@, ino, other, token);
}

/// The open file of an inode serves its readers, and its writers where it was opened for
/// writing. A handle tells the inode, the file and what it may be used for.
pub proof fn an_open_file_serves_those_it_was_opened_for(
    table: &mut HandleTable,
    ino: i64,
    authority: Authority,
    handle: Option<Handle>,
    file: u64,
    writable: bool,
)
    requires
        old(table).wf(),
        call_ensures(HandleTable::cached, (table, ino, authority), handle),
        has_open(old(table)@, ino, file, writable),
    ensures
        handle is Some <==> writable || authority is Read,
        handle is Some ==> handle->0.ino == ino,
        handle is Some ==> handle->0.file.number == file,
        handle is Some ==> (handle->0.authority is Write <==> writable),
        has_open(final(table)@, ino, file, writable),
        final(table)@.open.last() == (ino, (file, writable)),
        final(table)@.tokens == old(table)@.tokens,
{
    old(table).known();
    final(table).known();
    lemma_has_open(old(table)@, ino, file, writable);
    lemma_has_open(final(table)@, ino, file, writable);
    lemma_used(old(table)@.open, ino, ino);
}

/// A file that was opened while another already serves is handed back, and the other one is
/// used. Otherwise it is the one that the table has from then on, and what it takes the
/// place of is handed back.
pub proof fn an_opened_file_is_kept_or_handed_back(
    table: &mut HandleTable,
    ino: i64,
    authority: Authority,
    file: FileId,
    outcome: (Handle, Option<FileId>),
    had: u64,
    writable: bool,
)
    requires
        old(table).wf(),
        call_ensures(HandleTable::opened, (table, ino, authority, file), outcome),
    ensures
        outcome.0.ino == ino,
        has_open(old(table)@, ino, had, writable) && (writable || authority is Read) ==> {
            &&& outcome.0.file.number == had
            &&& outcome.0.authority is Write <==> writable
            &&& outcome.1 == Some(file)
            &&& has_open(final(table)@, ino, had, writable)
        },
        has_open(old(table)@, ino, had, writable) && !writable && authority is Write ==> {
            &&& outcome.0.file == file
            &&& outcome.0.authority is Write
            &&& outcome.1 == Some(FileId { number: had })
            &&& has_open(final(table)@, ino, file.number, true)
        },
        !has_open(old(table)@, ino, outcome.0.file.number, outcome.0.authority is Write)
            ==> outcome.0.file == file && outcome.0.authority == authority && has_open(
            final(table)@,
            ino,
            file.number,
            authority is Write,
        ),
        final(table)@.tokens == old(table)@.tokens,
{
    old(table).known();
    final(table).known();
    let before = old(table)@;
    lemma_has_open(before, ino, had, writable);
    lemma_has_open(final(table)@, ino, had, writable);
    lemma_has_open(before, ino, outcome.0.file.number, outcome.0.authority is Write);
    lemma_has_open(final(table)@, ino, file.number, authority is Write);
    lemma_used(before.open, ino, ino);
    if !before.serves(ino, authority) {
        lemma_pushed(
            before.looked_up(ino).open,
            before.open_limit,
            ino,
            (file.number, authority is Write),
        );
    }
}

} // verus!
