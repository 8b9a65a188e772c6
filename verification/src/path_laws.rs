//! How paths are taken apart, in terms of what they are made of.
use crate::error::FsError;
use crate::numbers::{parse_i64, parse_u64};
use crate::path::{
    all_plain, components, normal_form, normalize_path, parent_and_name, plain, rendered, resolved,
    scan, split_components, split_path, split_undoes_render, trim_end_slashes,
};
use crate::text::{decimal, i64_to_text, strings, u64_to_text};
use crate::text_order::{comes_before, text_less};
use vstd::prelude::*;

verus! {

proof fn lemma_scan_joined(base: Seq<char>, name: Seq<char>)
    requires
        !name.contains('/'),
    ensures
        scan(base + seq!['/'] + name) == (components(base), name),
    decreases name.len(),
{
    let all = base + seq!['/'] + name;
    if name.len() == 0 {
        assert(all.drop_last() =~= base);
        assert(all.last() == '/');
        assert(name =~= Seq::<char>::empty());
    } else {
        let rest = name.drop_last();
        assert(all.drop_last() =~= base + seq!['/'] + rest);
        assert(!rest.contains('/')) by {
            if rest.contains('/') {
                let i = rest.index_of('/');
                assert(name[i] == '/');
            }
        }
        lemma_scan_joined(base, rest);
        assert(name.contains(name[name.len() - 1]));
        assert(all.last() == name.last());
        assert(rest.push(name.last()) =~= name);
    }
}

proof fn lemma_trimmed(s: Seq<char>)
    ensures
        components(trim_end_slashes(s)) == components(s),
        trim_end_slashes(s).len() <= s.len(),
        trim_end_slashes(s).len() > 0 ==> trim_end_slashes(s)[0] == s[0],
        trim_end_slashes(s).len() == 0 ==> components(s).len() == 0,
    decreases s.len(),
{
    if s.len() > 0 && s.last() == '/' {
        lemma_trimmed(s.drop_last());
    }
}

proof fn lemma_resolved_plain(parts: Seq<Seq<char>>)
    requires
        all_plain(parts),
    ensures
        all_plain(resolved(parts)),
    decreases parts.len(),
{
    if parts.len() > 0 {
        let rest = parts.drop_last();
        assert forall|i: int| 0 <= i < rest.len() implies plain(#[trigger] rest[i]) by {
            assert(rest[i] == parts[i]);
        }
        lemma_resolved_plain(rest);
        assert(plain(parts[parts.len() - 1]));
        let before = resolved(rest);
        let all = resolved(parts);
        assert forall|i: int| 0 <= i < all.len() implies plain(#[trigger] all[i]) by {
            if i < before.len() {
                assert(plain(before[i]));
            }
        }
    }
}

/// An absolute path is split into its components with dots resolved.
proof fn lemma_split_absolute(path: Seq<char>)
    requires
        path.len() > 0,
        path[0] == '/',
    ensures
        components(normal_form(path)) == resolved(components(path)),
{
    lemma_trimmed(path);
    let trimmed = trim_end_slashes(path);
    crate::path::components_are_plain(trimmed);
    lemma_resolved_plain(components(trimmed));
    split_undoes_render(resolved(components(trimmed)));
    if trimmed.len() == 0 {
        assert(components(path) =~= Seq::<Seq<char>>::empty());
        split_undoes_render(Seq::<Seq<char>>::empty());
    }
}

/// A text is split at its slashes: a name behind a slash is one more part, and nothing behind a
/// slash is none.
pub proof fn a_slash_separates_parts(
    base: &str,
    path: &str,
    name: Seq<char>,
    of_base: Vec<String>,
    of_path: Vec<String>,
)
    requires
        path@ == base@ + seq!['/'] + name,
        !name.contains('/'),
        call_ensures(split_components, (base,), of_base),
        call_ensures(split_components, (path,), of_path),
    ensures
        name.len() > 0 ==> strings(of_path@) == strings(of_base@).push(name),
        name.len() == 0 ==> strings(of_path@) == strings(of_base@),
{
    lemma_scan_joined(base@, name);
}

/// A text without a slash is its own only part, and an empty one has none.
pub proof fn a_text_without_a_slash_is_one_part(name: &str, parts: Vec<String>)
    requires
        !name@.contains('/'),
        call_ensures(split_components, (name,), parts),
    ensures
        name@.len() > 0 ==> strings(parts@) == seq![name@],
        name@.len() == 0 ==> parts@.len() == 0,
{
    lemma_scan_plain_text(name@);
    assert(strings(parts@).len() == parts@.len());
}

proof fn lemma_scan_plain_text(s: Seq<char>)
    requires
        !s.contains('/'),
    ensures
        scan(s) == (Seq::<Seq<char>>::empty(), s),
    decreases s.len(),
{
    if s.len() > 0 {
        let rest = s.drop_last();
        assert(!rest.contains('/')) by {
            if rest.contains('/') {
                let i = rest.index_of('/');
                assert(s[i] == '/');
            }
        }
        lemma_scan_plain_text(rest);
        assert(s.contains(s[s.len() - 1]));
        assert(rest.push(s.last()) =~= s);
    } else {
        assert(s =~= Seq::<char>::empty());
    }
}

/// A path leads one step further with each name behind a slash. A dot stays, two dots go back one
/// step and stay at the root, and any other name is one more component.
pub proof fn dots_are_resolved(
    base: &str,
    path: &str,
    name: Seq<char>,
    of_base: Vec<String>,
    of_path: Vec<String>,
)
    requires
        base@.len() == 0 || base@[0] == '/',
        path@ == base@ + seq!['/'] + name,
        !name.contains('/'),
        name.len() > 0,
        call_ensures(split_path, (base,), of_base),
        call_ensures(split_path, (path,), of_path),
    ensures
        name == seq!['.'] ==> strings(of_path@) == strings(of_base@),
        name == seq!['.', '.'] && of_base@.len() > 0 ==> strings(of_path@) == strings(
            of_base@,
        ).drop_last(),
        name == seq!['.', '.'] && of_base@.len() == 0 ==> of_path@.len() == 0,
        name != seq!['.'] && name != seq!['.', '.'] ==> strings(of_path@) == strings(of_base@).push(
            name,
        ),
{
    lemma_scan_joined(base@, name);
    let parts = components(path@);
    assert(parts == components(base@).push(name));
    assert(parts.drop_last() =~= components(base@));
    assert(path@[0] == '/');
    lemma_split_absolute(path@);
    if base@.len() == 0 {
        assert(components(base@) =~= Seq::<Seq<char>>::empty());
        split_undoes_render(Seq::<Seq<char>>::empty());
        assert(resolved(components(base@)) =~= Seq::<Seq<char>>::empty());
    } else {
        lemma_split_absolute(base@);
    }
    assert(strings(of_base@).len() == of_base@.len());
    assert(strings(of_path@).len() == of_path@.len());
    let one: Seq<char> = seq!['.'];
    let two: Seq<char> = seq!['.', '.'];
    assert(one.len() == 1 && two.len() == 2);
}

/// A relative path leads from the root along its components as they stand.
pub proof fn a_relative_path_starts_at_the_root(path: &str, normal: String)
    requires
        trim_end_slashes(path@).len() > 0,
        trim_end_slashes(path@)[0] != '/',
        call_ensures(normalize_path, (path,), normal),
    ensures
        normal@ == seq!['/'] + trim_end_slashes(path@),
{
}

/// Slashes at the end of a path do not count.
pub proof fn trailing_slashes_do_not_count(path: &str, longer: &str, one: String, two: String)
    requires
        longer@ == path@.push('/'),
        call_ensures(normalize_path, (path,), one),
        call_ensures(normalize_path, (longer,), two),
    ensures
        one@ == two@,
{
    assert(longer@.drop_last() =~= path@);
}

/// A path is its parent and its name: the name behind the parent and a slash is the path again, in
/// normal form. The root has neither.
pub proof fn a_path_is_its_parent_and_its_name(
    path: &str,
    result: Result<(String, String), FsError>,
)
    requires
        call_ensures(parent_and_name, (path,), result),
    ensures
        result is Err <==> components(normal_form(normal_form(path@))).len() == 0,
        result matches Err(error) ==> error is RootOperation,
        result matches Ok(pair) ==> {
            let (parent, name) = pair;
            let whole = rendered(components(normal_form(normal_form(path@))));
            &&& !name@.contains('/') && name@.len() > 0
            &&& parent@ == seq!['/'] ==> whole == seq!['/'] + name@
            &&& parent@ != seq!['/'] ==> whole == parent@ + seq!['/'] + name@
        },
{
    let whole = normal_form(normal_form(path@));
    let parts = components(whole);
    crate::path::components_are_plain(whole);
    if parts.len() > 0 {
        let head = parts.drop_last();
        assert(plain(parts[parts.len() - 1]));
        assert(crate::path::slashed(parts) =~= crate::path::slashed(head) + seq!['/']
            + parts.last());
        if head.len() == 0 {
            assert(crate::path::slashed(head) =~= Seq::<char>::empty());
            assert(crate::path::slashed(parts) =~= seq!['/'] + parts.last());
        } else {
            assert forall|i: int| 0 <= i < head.len() implies plain(#[trigger] head[i]) by {
                assert(head[i] == parts[i]);
            }
            crate::path::lemma_slashed_shape(head);
            assert(rendered(head) != seq!['/']);
        }
    }
}

proof fn lemma_digits(n: nat)
    ensures
        crate::numbers::magnitude(decimal(n)) == Some(n),
        decimal(n).len() > 0,
        decimal(n)[0] != '+',
        decimal(n)[0] != '-',
    decreases n,
{
    let text = decimal(n);
    if n >= 10 {
        lemma_digits(n / 10);
        let head = decimal(n / 10);
        assert(text.drop_last() =~= head);
        assert(crate::numbers::is_digit(text.last()));
        assert forall|i: int| 0 <= i < text.len() implies crate::numbers::is_digit(
            #[trigger] text[i],
        ) by {
            if i < head.len() {
                assert(text[i] == head[i]);
                assert(crate::numbers::is_digit(head[i]));
            }
        }
        assert(text[0] == head[0]);
    } else {
        assert(text.len() == 1);
        assert(text.drop_last() =~= Seq::<char>::empty());
        assert(crate::numbers::digits_value(text.drop_last()) == 0);
    }
}

/// A number that is written down reads back.
pub proof fn a_written_number_reads_back(
    n: u64,
    text: String,
    found: Option<u64>,
    s: &str,
)
    requires
        call_ensures(u64_to_text, (n,), text),
        s@ == text@,
        call_ensures(parse_u64, (s,), found),
    ensures
        found == Some(n),
{
    lemma_digits(n as nat);
}

/// A number is written in decimal: one digit below ten, and otherwise the number of its tens and
/// then its last digit.
pub proof fn numbers_are_written_in_decimal(n: u64, tens: u64, text: String, head: String)
    requires
        call_ensures(u64_to_text, (n,), text),
        call_ensures(u64_to_text, (tens,), head),
        tens == n / 10,
    ensures
        text@.len() > 0,
        text@.last() as int == 48 + n % 10,
        n < 10 ==> text@.len() == 1,
        n >= 10 ==> text@.drop_last() == head@,
{
    if n >= 10 {
        assert(text@.drop_last() =~= head@);
    }
}

/// A number with a sign that is written down reads back.
pub proof fn a_written_signed_number_reads_back(
    n: i64,
    text: String,
    found: Option<i64>,
    s: &str,
)
    requires
        call_ensures(i64_to_text, (n,), text),
        s@ == text@,
        call_ensures(parse_i64, (s,), found),
    ensures
        found == Some(n),
{
    if n >= 0 {
        lemma_digits(n as nat);
    } else {
        lemma_digits((-n) as nat);
        assert(s@.skip(1) =~= decimal((-n) as nat));
    }
}

/// Texts are in order of their first difference, and a text comes before what begins with it.
pub proof fn the_first_difference_orders_texts(a: &str, b: &str, before: bool, at: int)
    requires
        call_ensures(comes_before, (a, b), before),
        0 <= at <= a@.len(),
        at <= b@.len(),
        forall|k: int| 0 <= k < at ==> a@[k] == b@[k],
    ensures
        at < a@.len() && at < b@.len() && a@[at] < b@[at] ==> before,
        at < a@.len() && at < b@.len() && a@[at] > b@[at] ==> !before,
        at == a@.len() && at < b@.len() ==> before,
        at == b@.len() ==> !before,
{
    lemma_common_start(a@, b@, at);
}

proof fn lemma_common_start(a: Seq<char>, b: Seq<char>, at: int)
    requires
        0 <= at <= a.len(),
        at <= b.len(),
        forall|k: int| 0 <= k < at ==> a[k] == b[k],
    ensures
        text_less(a, b) == text_less(a.skip(at), b.skip(at)),
    decreases at,
{
    if at == 0 {
        assert(a.skip(0) =~= a);
        assert(b.skip(0) =~= b);
    } else {
        assert(a[0] == b[0]);
        let x = a.skip(1);
        let y = b.skip(1);
        assert forall|k: int| 0 <= k < at - 1 implies x[k] == y[k] by {
            assert(a[k + 1] == b[k + 1]);
        }
        lemma_common_start(x, y, at - 1);
        assert(x.skip(at - 1) =~= a.skip(at));
        assert(y.skip(at - 1) =~= b.skip(at));
    }
}

} // verus!
