//! Texts in order.
use crate::text::{chars_of, same_text, strings};
use vstd::prelude::*;

verus! {

/// Whether a text comes before another: the first character that differs decides, and a
/// text comes before its extensions.
pub open spec fn text_less(a: Seq<char>, b: Seq<char>) -> bool
    decreases a.len(),
{
    if b.len() == 0 {
        false
    } else if a.len() == 0 {
        true
    } else if a[0] != b[0] {
        a[0] < b[0]
    } else {
        text_less(a.skip(1), b.skip(1))
    }
}

/// Each text comes before those after it.
pub open spec fn in_order(names: Seq<Seq<char>>) -> bool {
    forall|i: int, j: int|
        0 <= i < j < names.len() ==> text_less(#[trigger] names[i], #[trigger] names[j])
}

pub proof fn text_order_is_total(a: Seq<char>, b: Seq<char>)
    ensures
        !text_less(a, a),
        !(text_less(a, b) && text_less(b, a)),
        text_less(a, b) || text_less(b, a) || a == b,
    decreases a.len(),
{
    if a.len() > 0 {
        text_order_is_total(a.skip(1), a.skip(1));
    }
    if a.len() > 0 && b.len() > 0 && a[0] == b[0] {
        text_order_is_total(a.skip(1), b.skip(1));
        if a.skip(1) == b.skip(1) {
            assert(a =~= seq![a[0]] + a.skip(1));
            assert(b =~= seq![b[0]] + b.skip(1));
        }
    }
    if a.len() == 0 && b.len() == 0 {
        assert(a =~= b);
    }
}

pub proof fn text_order_is_transitive(a: Seq<char>, b: Seq<char>, c: Seq<char>)
    requires
        text_less(a, b),
        text_less(b, c),
    ensures
        text_less(a, c),
    decreases a.len(),
{
    if a.len() > 0 && a[0] == b[0] && b[0] == c[0] {
        text_order_is_transitive(a.skip(1), b.skip(1), c.skip(1));
    }
}

/// Whether a text comes before another.
pub fn comes_before(a: &str, b: &str) -> (yes: bool)
    ensures
        yes == text_less(a@, b@),
{
    let x: Vec<char> = chars_of(a);
    let y: Vec<char> = chars_of(b);
    let mut i: usize = 0;
    assert(x@.skip(0) =~= a@);
    assert(y@.skip(0) =~= b@);
    while i < x.len() && i < y.len() && x[i] == y[i]
        invariant
            i <= x@.len(),
            i <= y@.len(),
            text_less(a@, b@) == text_less(x@.skip(i as int), y@.skip(i as int)),
        decreases x@.len() - i,
    {
        assert(x@.skip(i as int).skip(1) =~= x@.skip(i + 1));
        assert(y@.skip(i as int).skip(1) =~= y@.skip(i + 1));
        i += 1;
    }
    if i >= y.len() {
        return false;
    }
    if i >= x.len() {
        return true;
    }
    x[i] < y[i]
}

/// Where a name stands, or would stand, among names in order.
pub fn slot(names: &Vec<String>, name: &str) -> (at: (usize, bool))
    requires
        in_order(strings(names@)),
    ensures
        at.0 <= names@.len(),
        forall|k: int| 0 <= k < at.0 ==> text_less(#[trigger] strings(names@)[k], name@),
        at.1 ==> at.0 < names@.len() && strings(names@)[at.0 as int] == name@,
        !at.1 ==> forall|k: int|
            at.0 <= k < names@.len() ==> text_less(name@, #[trigger] strings(names@)[k]),
{
    let ghost all = strings(names@);
    let mut low: usize = 0;
    let mut high: usize = names.len();
    while low < high
        invariant
            low <= high <= names@.len(),
            all == strings(names@),
            in_order(all),
            forall|k: int| 0 <= k < low ==> text_less(#[trigger] all[k], name@),
            forall|k: int|
                high <= k < all.len() ==> !text_less(#[trigger] all[k], name@),
        decreases high - low,
    {
        let mid: usize = low + (high - low) / 2;
        assert(all[mid as int] == names@[mid as int]@);
        if comes_before(names[mid].as_str(), name) {
            proof {
                assert forall|k: int| 0 <= k < mid + 1 implies text_less(
                    #[trigger] all[k],
                    name@,
                ) by {
                    if k < mid {
                        text_order_is_transitive(all[k], all[mid as int], name@);
                    }
                }
            }
            low = mid + 1;
        } else {
            proof {
                assert forall|k: int| mid <= k < all.len() implies !text_less(
                    #[trigger] all[k],
                    name@,
                ) by {
                    if k > mid && text_less(all[k], name@) {
                        text_order_is_transitive(all[mid as int], all[k], name@);
                    }
                }
            }
            high = mid;
        }
    }
    let found: bool = low < names.len() && same_text(names[low].as_str(), name);
    proof {
        if !found {
            assert forall|k: int| low <= k < all.len() implies text_less(
                name@,
                #[trigger] all[k],
            ) by {
                text_order_is_total(all[k], name@);
                if all[k] == name@ {
                    assert(all[low as int] == names@[low as int]@);
                    text_order_is_total(all[low as int], name@);
                    if k > low {
                        assert(text_less(all[low as int], all[k]));
                    }
                }
            }
        }
    }
    (low, found)
}

/// A name put where it belongs keeps names in order.
pub proof fn lemma_inserted_in_order(names: Seq<Seq<char>>, at: int, name: Seq<char>)
    requires
        in_order(names),
        0 <= at <= names.len(),
        forall|k: int| 0 <= k < at ==> text_less(#[trigger] names[k], name),
        forall|k: int| at <= k < names.len() ==> text_less(name, #[trigger] names[k]),
    ensures
        in_order(names.insert(at, name)),
        names.insert(at, name).to_set() == names.to_set().insert(name),
{
    let after = names.insert(at, name);
    assert forall|i: int, j: int| 0 <= i < j < after.len() implies text_less(
        #[trigger] after[i],
        #[trigger] after[j],
    ) by {
        let bi = if i < at {
            i
        } else {
            i - 1
        };
        let bj = if j < at {
            j
        } else {
            j - 1
        };
        if i != at {
            assert(after[i] == names[bi]);
        }
        if j != at {
            assert(after[j] == names[bj]);
        }
    }
    assert forall|n: Seq<char>| #[trigger]
        after.to_set().contains(n) <==> names.to_set().insert(name).contains(n) by {
        if after.contains(n) {
            let i = choose|i: int| 0 <= i < after.len() && after[i] == n;
            if i < at {
                assert(names[i] == n);
            } else if i > at {
                assert(names[i - 1] == n);
            }
        }
        if names.contains(n) {
            let i = choose|i: int| 0 <= i < names.len() && names[i] == n;
            if i < at {
                assert(after[i] == n);
            } else {
                assert(after[i + 1] == n);
            }
        }
        assert(after[at] == name);
    }
    assert(after.to_set() =~= names.to_set().insert(name));
}

} // verus!
