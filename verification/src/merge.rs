//! Merging the devices that are measured with the devices that should be:
//! both lists are walked by id, as `itertools` merges them, and each step
//! keeps a stream, drops one or starts one.

use core::cmp::Ordering;

use itertools::EitherOrBoth;
use itertools::Itertools;
use vstd::prelude::*;

verus! {

/// True when the text `a` comes before the text `b`: at the first place
/// where they differ the character of `a` is smaller, or `a` is a proper
/// prefix of `b`.
pub open spec fn text_less(a: Seq<char>, b: Seq<char>) -> bool
    decreases a.len(),
{
    if a.len() == 0 {
        b.len() > 0
    } else if b.len() == 0 {
        false
    } else if a[0] != b[0] {
        a[0] < b[0]
    } else {
        text_less(a.drop_first(), b.drop_first())
    }
}

/// How two texts are ordered (see [`text_less`]).
pub open spec fn text_ordering(a: Seq<char>, b: Seq<char>) -> Ordering {
    if text_less(a, b) {
        Ordering::Less
    } else if text_less(b, a) {
        Ordering::Greater
    } else {
        Ordering::Equal
    }
}

proof fn lemma_text_order(a: Seq<char>, b: Seq<char>, k: int)
    requires
        0 <= k <= a.len(),
        k <= b.len(),
        a.take(k) =~= b.take(k),
    ensures
        text_less(a, b) == text_less(a.skip(k), b.skip(k)),
        text_less(b, a) == text_less(b.skip(k), a.skip(k)),
    decreases k,
{
    if k > 0 {
        assert(a[0] == a.take(k)[0]);
        assert(b[0] == b.take(k)[0]);
        assert(a.drop_first().take(k - 1) =~= a.take(k).drop_first());
        assert(b.drop_first().take(k - 1) =~= b.take(k).drop_first());
        lemma_text_order(a.drop_first(), b.drop_first(), k - 1);
        assert(a.drop_first().skip(k - 1) =~= a.skip(k));
        assert(b.drop_first().skip(k - 1) =~= b.skip(k));
    } else {
        assert(a.skip(0) =~= a);
        assert(b.skip(0) =~= b);
    }
}

/// Law: device ids are ordered lexicographically by character: `a` comes
/// before `b` exactly when `a` is a proper prefix of `b`, or at the first
/// position where they differ the character of `a` is smaller; the lengths
/// matter only when one text is a prefix of the other.
pub proof fn law_ids_ordered_lexicographically(a: Seq<char>, b: Seq<char>)
    ensures
        text_less(a, b) <==> ((a.len() < b.len() && a =~= b.take(a.len() as int)) || exists|i: int|
            0 <= i < a.len() && i < b.len() && a.take(i) =~= b.take(i) && #[trigger] a[i] < b[i]),
    decreases a.len(),
{
    if a.len() == 0 {
        assert(a =~= b.take(0));
    } else if b.len() == 0 {
    } else if a[0] != b[0] {
        if a[0] < b[0] {
            assert(a.take(0) =~= b.take(0));
        }
        if a.len() < b.len() && a =~= b.take(a.len() as int) {
            assert(a[0] == b.take(a.len() as int)[0]);
        }
        assert forall|i: int|
            0 <= i < a.len() && i < b.len() && a.take(i) =~= b.take(i) && #[trigger] a[i] < b[i] implies i == 0 && a[0] < b[0] by {
            if i > 0 {
                assert(a.take(i)[0] == b.take(i)[0]);
            }
        }
    } else {
        let a1 = a.drop_first();
        let b1 = b.drop_first();
        law_ids_ordered_lexicographically(a1, b1);
        if a.len() < b.len() && a =~= b.take(a.len() as int) {
            assert forall|j: int| 0 <= j < a1.len() implies #[trigger] a1[j] == b1.take(a1.len() as int)[j] by {
                assert(a[j + 1] == b.take(a.len() as int)[j + 1]);
            }
            assert(a1 =~= b1.take(a1.len() as int));
        }
        if a1.len() < b1.len() && a1 =~= b1.take(a1.len() as int) {
            assert forall|j: int| 0 <= j < a.len() implies #[trigger] a[j] == b.take(a.len() as int)[j] by {
                if j > 0 {
                    assert(a1[j - 1] == b1.take(a1.len() as int)[j - 1]);
                }
            }
            assert(a =~= b.take(a.len() as int));
        }
        if exists|i: int| 0 <= i < a.len() && i < b.len() && a.take(i) =~= b.take(i) && #[trigger] a[i] < b[i] {
            let i = choose|i: int| 0 <= i < a.len() && i < b.len() && a.take(i) =~= b.take(i) && #[trigger] a[i] < b[i];
            assert(i > 0);
            assert(a1.take(i - 1) =~= b1.take(i - 1)) by {
                assert forall|j: int| 0 <= j < i - 1 implies #[trigger] a1.take(i - 1)[j] == b1.take(i - 1)[j] by {
                    assert(a.take(i)[j + 1] == b.take(i)[j + 1]);
                }
            }
            assert(a1[i - 1] == a[i] && b1[i - 1] == b[i]);
        }
        if exists|i: int| 0 <= i < a1.len() && i < b1.len() && a1.take(i) =~= b1.take(i) && #[trigger] a1[i] < b1[i] {
            let i = choose|i: int| 0 <= i < a1.len() && i < b1.len() && a1.take(i) =~= b1.take(i) && #[trigger] a1[i] < b1[i];
            assert(a.take(i + 1) =~= b.take(i + 1)) by {
                assert forall|j: int| 0 <= j < i + 1 implies #[trigger] a.take(i + 1)[j] == b.take(i + 1)[j] by {
                    if j > 0 {
                        assert(a1.take(i)[j - 1] == b1.take(i)[j - 1]);
                    }
                }
            }
            assert(a[i + 1] == a1[i] && b[i + 1] == b1[i]);
        }
    }
}

/// Whether the text `a` comes before the text `b` (see [`text_less`]).
pub fn text_before(a: &String, b: &String) -> (r: bool)
    ensures
        r == text_less(a@, b@),
{
    let sa = a.as_str();
    let sb = b.as_str();
    let la = sa.unicode_len();
    let lb = sb.unicode_len();
    let mut i: usize = 0;
    while i < la && i < lb
        invariant
            la == a@.len(),
            lb == b@.len(),
            sa@ == a@,
            sb@ == b@,
            i <= la,
            i <= lb,
            a@.take(i as int) =~= b@.take(i as int),
        decreases la - i,
    {
        let ca = sa.get_char(i);
        let cb = sb.get_char(i);
        if ca != cb {
            proof {
                lemma_text_order(a@, b@, i as int);
                assert(a@.skip(i as int)[0] == ca);
                assert(b@.skip(i as int)[0] == cb);
            }
            return ca < cb;
        }
        proof {
            assert(a@.take(i + 1) =~= a@.take(i as int).push(ca));
            assert(b@.take(i + 1) =~= b@.take(i as int).push(cb));
        }
        i = i + 1;
    }
    proof {
        lemma_text_order(a@, b@, i as int);
    }
    la < lb
}

/// How two device ids are ordered: as the characters of the texts are.
pub fn compare_ids(a: &String, b: &String) -> (o: Ordering)
    ensures
        o == text_ordering(a@, b@),
{
    if text_before(a, b) {
        Ordering::Less
    } else if text_before(b, a) {
        Ordering::Greater
    } else {
        Ordering::Equal
    }
}

/// One step of the merge: the stream at the first index goes on with the
/// device at the second, the stream at the index is dropped, or a stream is
/// started for the device at the index.
#[derive(Clone, Copy, Debug, PartialEq, Eq, Structural)]
pub enum MergeStep {
    Both(usize, usize),
    Left(usize),
    Right(usize),
}

/// The steps of merging `a` from `i` on with `b` from `j` on: while both
/// have items, the smaller id goes first (a step of its own side) and equal
/// ids go together; then the rest of the longer side, one step each.
pub open spec fn merge_steps(a: Seq<Seq<char>>, b: Seq<Seq<char>>, i: nat, j: nat) -> Seq<
    MergeStep,
>
    decreases (a.len() + b.len()) - (i + j),
        when i <= a.len() && j <= b.len()
{
    if i >= a.len() && j >= b.len() {
        Seq::empty()
    } else if i >= a.len() {
        seq![MergeStep::Right(j as usize)] + merge_steps(a, b, i, j + 1)
    } else if j >= b.len() {
        seq![MergeStep::Left(i as usize)] + merge_steps(a, b, i + 1, j)
    } else if text_less(a[i as int], b[j as int]) {
        seq![MergeStep::Left(i as usize)] + merge_steps(a, b, i + 1, j)
    } else if text_less(b[j as int], a[i as int]) {
        seq![MergeStep::Right(j as usize)] + merge_steps(a, b, i, j + 1)
    } else {
        seq![MergeStep::Both(i as usize, j as usize)] + merge_steps(a, b, i + 1, j + 1)
    }
}

/// The ids of a list of strings.
pub open spec fn ids_view(ids: Seq<String>) -> Seq<Seq<char>> {
    ids.map_values(|s: String| s@)
}

/// `Itertools::merge_join_by` on the indexed ids, ordered by
/// [`compare_ids`]: the contract restates the crate's merge (each step
/// compares the heads of both sides, `Less` yields the left one, `Greater`
/// the right one, `Equal` both; once a side is empty the other yields the
/// rest), with each item given by its index.
#[verifier::external_body]
fn merge_join_ids(old: &Vec<String>, new: &Vec<String>) -> (steps: Vec<MergeStep>)
    ensures
        steps@ == merge_steps(ids_view(old@), ids_view(new@), 0, 0),
{
    old.iter().enumerate().merge_join_by(new.iter().enumerate(), |a, b| compare_ids(a.1, b.1)).map(
        |step| match step {
            EitherOrBoth::Both(a, b) => MergeStep::Both(a.0, b.0),
            EitherOrBoth::Left(a) => MergeStep::Left(a.0),
            EitherOrBoth::Right(b) => MergeStep::Right(b.0),
        },
    ).collect()
}

/// The merge of the ids of the devices measured (`old`) with the ids of
/// the devices to measure (`new`).
pub fn merge_devices(old: &Vec<String>, new: &Vec<String>) -> (steps: Vec<MergeStep>)
    ensures
        steps@ == merge_steps(ids_view(old@), ids_view(new@), 0, 0),
{
    merge_join_ids(old, new)
}

/// The indices of the devices to measure that the steps give streams to,
/// in order.
pub open spec fn new_side(steps: Seq<MergeStep>) -> Seq<int>
    decreases steps.len(),
{
    if steps.len() == 0 {
        Seq::empty()
    } else {
        let rest = new_side(steps.drop_first());
        match steps[0] {
            MergeStep::Both(_, j) => seq![j as int] + rest,
            MergeStep::Right(j) => seq![j as int] + rest,
            MergeStep::Left(_) => rest,
        }
    }
}

/// The indices of the measured devices that the steps keep or drop, in
/// order.
pub open spec fn old_side(steps: Seq<MergeStep>) -> Seq<int>
    decreases steps.len(),
{
    if steps.len() == 0 {
        Seq::empty()
    } else {
        let rest = old_side(steps.drop_first());
        match steps[0] {
            MergeStep::Both(i, _) => seq![i as int] + rest,
            MergeStep::Left(i) => seq![i as int] + rest,
            MergeStep::Right(_) => rest,
        }
    }
}

/// The integers from `from` up to `to`, left out.
pub open spec fn index_range(from: int, to: int) -> Seq<int> {
    Seq::new((to - from) as nat, |k: int| from + k)
}

/// Law: merging settles every device exactly once and in order: each
/// device to measure gets one stream, kept or started, and each measured
/// device's stream is kept or dropped once.
pub proof fn law_merge_settles_each_once(a: Seq<Seq<char>>, b: Seq<Seq<char>>, i: nat, j: nat)
    requires
        i <= a.len() <= usize::MAX,
        j <= b.len() <= usize::MAX,
    ensures
        new_side(merge_steps(a, b, i, j)) =~= index_range(j as int, b.len() as int),
        old_side(merge_steps(a, b, i, j)) =~= index_range(i as int, a.len() as int),
    decreases (a.len() + b.len()) - (i + j),
{
    let steps = merge_steps(a, b, i, j);
    if i >= a.len() && j >= b.len() {
    } else if i >= a.len() {
        law_merge_settles_each_once(a, b, i, j + 1);
        assert(steps.drop_first() =~= merge_steps(a, b, i, j + 1));
        assert(index_range(j as int, b.len() as int) =~= seq![j as int] + index_range(
            (j + 1) as int,
            b.len() as int,
        ));
    } else if j >= b.len() {
        law_merge_settles_each_once(a, b, i + 1, j);
        assert(steps.drop_first() =~= merge_steps(a, b, i + 1, j));
        assert(index_range(i as int, a.len() as int) =~= seq![i as int] + index_range(
            (i + 1) as int,
            a.len() as int,
        ));
    } else if text_less(a[i as int], b[j as int]) {
        law_merge_settles_each_once(a, b, i + 1, j);
        assert(steps.drop_first() =~= merge_steps(a, b, i + 1, j));
        assert(index_range(i as int, a.len() as int) =~= seq![i as int] + index_range(
            (i + 1) as int,
            a.len() as int,
        ));
    } else if text_less(b[j as int], a[i as int]) {
        law_merge_settles_each_once(a, b, i, j + 1);
        assert(steps.drop_first() =~= merge_steps(a, b, i, j + 1));
        assert(index_range(j as int, b.len() as int) =~= seq![j as int] + index_range(
            (j + 1) as int,
            b.len() as int,
        ));
    } else {
        law_merge_settles_each_once(a, b, i + 1, j + 1);
        assert(steps.drop_first() =~= merge_steps(a, b, i + 1, j + 1));
        assert(index_range(i as int, a.len() as int) =~= seq![i as int] + index_range(
            (i + 1) as int,
            a.len() as int,
        ));
        assert(index_range(j as int, b.len() as int) =~= seq![j as int] + index_range(
            (j + 1) as int,
            b.len() as int,
        ));
    }
}

} // verus!
