//! The order in which the branch list shows branches, and a stable sort by it.
use vstd::prelude::*;
use crate::branch::Branch;

verus! {

/// Sort order for the branch list
#[derive(Debug, Clone, Copy, PartialEq, Eq, Structural)]
pub enum SortOrder {
    /// Sort by age (oldest first)
    Age,
    /// Sort by name (alphabetical)
    Name,
    /// Sort by merge status (merged first)
    Status,
}

impl SortOrder {
    /// The order that follows `self` in the cycle Age -> Name -> Status -> Age.
    pub open spec fn spec_next(self) -> SortOrder {
        match self {
            SortOrder::Age => SortOrder::Name,
            SortOrder::Name => SortOrder::Status,
            SortOrder::Status => SortOrder::Age,
        }
    }

    /// Cycle to the next sort order
    pub fn next(self) -> (r: Self)
        ensures
            r == self.spec_next(),
    {
        match self {
            SortOrder::Age => SortOrder::Name,
            SortOrder::Name => SortOrder::Status,
            SortOrder::Status => SortOrder::Age,
        }
    }

    /// Human-readable label for the current sort order
    pub fn label(self) -> (s: &'static str)
        ensures
            s@ == (match self {
                SortOrder::Age => "Age"@,
                SortOrder::Name => "Name"@,
                SortOrder::Status => "Status"@,
            }),
    {
        match self {
            SortOrder::Age => "Age",
            SortOrder::Name => "Name",
            SortOrder::Status => "Status",
        }
    }
}

/// Three-way comparison of integers: -1, 0 or 1.
pub open spec fn int_compare(a: int, b: int) -> int {
    if a < b {
        -1
    } else if a > b {
        1
    } else {
        0
    }
}

/// Lexicographic comparison of character sequences by code point, a proper
/// prefix first: -1, 0 or 1. (For UTF-8 strings this is the order of their
/// bytes, which is how `String` compares.)
pub open spec fn name_compare(a: Seq<char>, b: Seq<char>) -> int
    decreases a.len(),
{
    if a.len() == 0 {
        if b.len() == 0 {
            0
        } else {
            -1
        }
    } else if b.len() == 0 {
        1
    } else if (a[0] as u32) < (b[0] as u32) {
        -1
    } else if (a[0] as u32) > (b[0] as u32) {
        1
    } else {
        name_compare(a.drop_first(), b.drop_first())
    }
}

/// How branch `x` compares with `y` in the list under `order`: merged
/// branches first; then, for `Name`, by name; otherwise oldest first.
pub open spec fn branch_compare(order: SortOrder, x: Branch, y: Branch) -> int {
    if x.is_merged != y.is_merged {
        if x.is_merged {
            -1
        } else {
            1
        }
    } else {
        match order {
            SortOrder::Name => name_compare(x.name@, y.name@),
            _ => int_compare(y.age_days as int, x.age_days as int),
        }
    }
}

/// Comparison of the branches at indices `a` and `b` of `bs`.
pub open spec fn index_compare(bs: Seq<Branch>, order: SortOrder, a: usize, b: usize) -> int {
    branch_compare(order, bs[a as int], bs[b as int])
}

/// `a` occurs before `b` in `s`.
pub open spec fn occurs_before(s: Seq<usize>, a: usize, b: usize) -> bool {
    exists|p: int, q: int| 0 <= p < q < s.len() && s[p] == a && s[q] == b
}

/// `out` is `input` sorted by `order`, equal branches keeping their order.
pub open spec fn stably_sorted(out: Seq<usize>, input: Seq<usize>, bs: Seq<Branch>, order: SortOrder) -> bool {
    &&& out.to_multiset() == input.to_multiset()
    &&& forall|i: int, j: int|
        0 <= i < j < out.len() ==> index_compare(bs, order, #[trigger] out[i], #[trigger] out[j]) <= 0
    &&& forall|i: int, j: int|
        0 <= i < j < out.len() && index_compare(bs, order, #[trigger] out[i], #[trigger] out[j]) == 0
            ==> occurs_before(input, out[i], out[j])
}

proof fn lemma_name_compare_antisym(a: Seq<char>, b: Seq<char>)
    ensures
        name_compare(a, b) == -name_compare(b, a),
    decreases a.len(),
{
    if a.len() > 0 && b.len() > 0 && (a[0] as u32) == (b[0] as u32) {
        lemma_name_compare_antisym(a.drop_first(), b.drop_first());
    }
}

proof fn lemma_name_compare_trans(a: Seq<char>, b: Seq<char>, c: Seq<char>)
    requires
        name_compare(a, b) <= 0,
        name_compare(b, c) <= 0,
    ensures
        name_compare(a, c) <= 0,
    decreases a.len(),
{
    if a.len() > 0 && b.len() > 0 && c.len() > 0 && (a[0] as u32) == (b[0] as u32) && (b[0] as u32)
        == (c[0] as u32) {
        lemma_name_compare_trans(a.drop_first(), b.drop_first(), c.drop_first());
    }
}

/// `branch_compare` is a total preorder: antisymmetric and transitive.
pub proof fn lemma_branch_compare_preorder(order: SortOrder, x: Branch, y: Branch, z: Branch)
    ensures
        branch_compare(order, x, y) == -branch_compare(order, y, x),
        -1 <= branch_compare(order, x, y) <= 1,
        branch_compare(order, x, y) <= 0 && branch_compare(order, y, z) <= 0 ==> branch_compare(order, x, z) <= 0,
{
    lemma_name_compare_antisym(x.name@, y.name@);
    lemma_name_compare_range(x.name@, y.name@);
    if branch_compare(order, x, y) <= 0 && branch_compare(order, y, z) <= 0 {
        if order == SortOrder::Name && x.is_merged == y.is_merged && y.is_merged == z.is_merged {
            lemma_name_compare_trans(x.name@, y.name@, z.name@);
        }
    }
}

proof fn lemma_name_compare_range(a: Seq<char>, b: Seq<char>)
    ensures
        -1 <= name_compare(a, b) <= 1,
    decreases a.len(),
{
    if a.len() > 0 && b.len() > 0 && (a[0] as u32) == (b[0] as u32) {
        lemma_name_compare_range(a.drop_first(), b.drop_first());
    }
}

/// Three-way comparison of character sequences, as `name_compare`.
fn compare_names(a: &Vec<char>, b: &Vec<char>) -> (r: i8)
    ensures
        r as int == name_compare(a@, b@),
{
    let mut i: usize = 0;
    assert(a@.skip(0) =~= a@);
    assert(b@.skip(0) =~= b@);
    while i < a.len() && i < b.len()
        invariant
            i <= a.len(),
            i <= b.len(),
            name_compare(a@, b@) == name_compare(a@.skip(i as int), b@.skip(i as int)),
        decreases a.len() - i,
    {
        let x = a[i] as u32;
        let y = b[i] as u32;
        if x < y {
            return -1;
        }
        if x > y {
            return 1;
        }
        assert(a@.skip(i as int).drop_first() =~= a@.skip(i + 1));
        assert(b@.skip(i as int).drop_first() =~= b@.skip(i + 1));
        i = i + 1;
    }
    if i < a.len() {
        1
    } else if i < b.len() {
        -1
    } else {
        0
    }
}

/// Three-way comparison of two branches under `order`; `x_name` and
/// `y_name` are their names as characters.
fn compare_branches(
    order: SortOrder,
    x: &Branch,
    y: &Branch,
    x_name: &Vec<char>,
    y_name: &Vec<char>,
) -> (r: i8)
    requires
        x_name@ == x.name@,
        y_name@ == y.name@,
    ensures
        r as int == branch_compare(order, *x, *y),
{
    if x.is_merged != y.is_merged {
        if x.is_merged {
            -1
        } else {
            1
        }
    } else {
        match order {
            SortOrder::Name => compare_names(x_name, y_name),
            _ => {
                if y.age_days < x.age_days {
                    -1
                } else if y.age_days > x.age_days {
                    1
                } else {
                    0
                }
            },
        }
    }
}

/// Sorts the indices `input` (into `bs`) by `order`, stably; `names[i]` is
/// the name of `bs[i]` as characters.
pub fn stable_sort_indices(
    input: &Vec<usize>,
    bs: &Vec<Branch>,
    names: &Vec<Vec<char>>,
    order: SortOrder,
) -> (out: Vec<usize>)
    requires
        names@.len() == bs@.len(),
        forall|i: int| 0 <= i < bs@.len() ==> #[trigger] names@[i]@ == bs@[i].name@,
        forall|i: int| 0 <= i < input@.len() ==> #[trigger] input@[i] < bs@.len(),
    ensures
        stably_sorted(out@, input@, bs@, order),
{
    let mut out: Vec<usize> = Vec::new();
    let mut k: usize = 0;
    assert(input@.take(0) =~= Seq::<usize>::empty());
    while k < input.len()
        invariant
            k <= input@.len(),
            names@.len() == bs@.len(),
            forall|i: int| 0 <= i < bs@.len() ==> #[trigger] names@[i]@ == bs@[i].name@,
            forall|i: int| 0 <= i < input@.len() ==> #[trigger] input@[i] < bs@.len(),
            out@.to_multiset() == input@.take(k as int).to_multiset(),
            forall|i: int| 0 <= i < out@.len() ==> #[trigger] out@[i] < bs@.len(),
            forall|i: int| 0 <= i < out@.len() ==> exists|p: int| 0 <= p < k && input@[p] == #[trigger] out@[i],
            forall|i: int, j: int|
                0 <= i < j < out@.len() ==> index_compare(bs@, order, #[trigger] out@[i], #[trigger] out@[j]) <= 0,
            forall|i: int, j: int|
                0 <= i < j < out@.len() && index_compare(bs@, order, #[trigger] out@[i], #[trigger] out@[j]) == 0
                    ==> occurs_before(input@, out@[i], out@[j]),
        decreases input@.len() - k,
    {
        let x = input[k];
        let mut j = out.len();
        while j > 0 && compare_branches(order, &bs[out[j - 1]], &bs[x], &names[out[j - 1]], &names[x]) > 0
            invariant
                j <= out@.len(),
                k < input@.len(),
                x == input@[k as int],
                names@.len() == bs@.len(),
                forall|i: int| 0 <= i < bs@.len() ==> #[trigger] names@[i]@ == bs@[i].name@,
                forall|i: int| 0 <= i < input@.len() ==> #[trigger] input@[i] < bs@.len(),
                forall|i: int| 0 <= i < out@.len() ==> #[trigger] out@[i] < bs@.len(),
                forall|t: int| j <= t < out@.len() ==> index_compare(bs@, order, #[trigger] out@[t], x) > 0,
            decreases j,
        {
            j = j - 1;
        }
        let ghost old_out = out@;
        out.insert(j, x);
        proof {
            old_out.insert_ensures(j as int, x);
            assert(input@.take(k + 1) =~= input@.take(k as int).push(x));
            assert(out@ == old_out.insert(j as int, x));
            vstd::seq_lib::to_multiset_insert(old_out, j as int, x);
            vstd::seq_lib::to_multiset_build(input@.take(k as int), x);
            assert forall|i: int| 0 <= i < out@.len() implies exists|p: int|
                0 <= p < k + 1 && input@[p] == #[trigger] out@[i] by {
                if i < j {
                    assert(out@[i] == old_out[i]);
                } else if i == j {
                    assert(input@[k as int] == out@[i]);
                } else {
                    assert(out@[i] == old_out[i - 1]);
                }
            }
            assert forall|a: int, b: int| 0 <= a < b < out@.len() implies index_compare(
                bs@,
                order,
                #[trigger] out@[a],
                #[trigger] out@[b],
            ) <= 0 && (index_compare(bs@, order, out@[a], out@[b]) == 0 ==> occurs_before(
                input@,
                out@[a],
                out@[b],
            )) by {
                let xa = out@[a];
                let xb = out@[b];
                lemma_branch_compare_preorder(order, bs@[xa as int], bs@[xb as int], bs@[x as int]);
                if b < j {
                    assert(xa == old_out[a] && xb == old_out[b]);
                } else if a > j {
                    assert(xa == old_out[a - 1] && xb == old_out[b - 1]);
                } else if b == j {
                    // xa is before the new element
                    assert(xa == old_out[a]);
                    assert(j > 0);
                    let prev = old_out[j - 1];
                    lemma_branch_compare_preorder(order, bs@[xa as int], bs@[prev as int], bs@[x as int]);
                    if a < j - 1 {
                        assert(index_compare(bs@, order, old_out[a], old_out[j - 1]) <= 0);
                    }
                    let p = choose|p: int| 0 <= p < k && input@[p] == old_out[a];
                    assert(input@[k as int] == x);
                } else if a == j {
                    assert(xb == old_out[b - 1]);
                    lemma_branch_compare_preorder(order, bs@[xb as int], bs@[x as int], bs@[x as int]);
                    assert(index_compare(bs@, order, old_out[b - 1], x) > 0);
                } else {
                    // a < j < b
                    assert(xa == old_out[a] && xb == old_out[b - 1]);
                    assert(index_compare(bs@, order, old_out[a], old_out[b - 1]) <= 0);
                    if index_compare(bs@, order, xa, xb) == 0 {
                        assert(occurs_before(input@, old_out[a], old_out[b - 1]));
                    }
                }
            }
        }
        k = k + 1;
    }
    assert(input@.take(input@.len() as int) =~= input@);
    proof {
        assert forall|i: int, j: int|
            0 <= i < j < out@.len() && index_compare(bs@, order, #[trigger] out@[i], #[trigger] out@[j]) == 0
                implies occurs_before(input@, out@[i], out@[j]) by {}
    }
    out
}

} // verus!

verus! {

/// `a` comes no later than `b` in the order of `String`s (code point by
/// code point): `a` is a prefix of `b`, or at the first position where they
/// differ the character of `a` is the smaller.
pub open spec fn string_le(a: Seq<char>, b: Seq<char>) -> bool {
    ||| (a.len() <= b.len() && b.take(a.len() as int) == a)
    ||| exists|k: int|
        0 <= k < a.len() && k < b.len() && a.take(k) == b.take(k) && (#[trigger] a[k] as u32) < (b[k] as u32)
}

proof fn lemma_name_compare_string_le(a: Seq<char>, b: Seq<char>)
    requires
        name_compare(a, b) <= 0,
    ensures
        string_le(a, b),
    decreases a.len(),
{
    if a.len() == 0 {
        assert(b.take(0) =~= a);
    } else if b.len() == 0 {
    } else if (a[0] as u32) < (b[0] as u32) {
        assert(a.take(0) =~= b.take(0));
        assert((a[0] as u32) < (b[0] as u32));
    } else {
        let a1 = a.drop_first();
        let b1 = b.drop_first();
        vstd::utf8::char_u32_cast(a[0], a[0] as u32);
        vstd::utf8::char_u32_cast(b[0], b[0] as u32);
        assert(a[0] == b[0]);
        lemma_name_compare_string_le(a1, b1);
        if a1.len() <= b1.len() && b1.take(a1.len() as int) == a1 {
            assert forall|t: int| 0 <= t < a.len() implies b.take(a.len() as int)[t] == a[t] by {
                if t > 0 {
                    assert(b1.take(a1.len() as int)[t - 1] == a1[t - 1]);
                }
            }
            assert(b.take(a.len() as int) =~= a);
        } else {
            let k1 = choose|k: int|
                0 <= k < a1.len() && k < b1.len() && a1.take(k) == b1.take(k) && (#[trigger] a1[k] as u32) < (
                b1[k] as u32);
            let k = k1 + 1;
            assert forall|t: int| 0 <= t < k implies a.take(k)[t] == b.take(k)[t] by {
                if t > 0 {
                    assert(a1.take(k1)[t - 1] == b1.take(k1)[t - 1]);
                }
            }
            assert(a.take(k) =~= b.take(k));
            assert(a[k] == a1[k1] && b[k] == b1[k1]);
        }
    }
}

/// Under the `Name` order, the list runs in `String` order within each
/// merged or unmerged group: for rows `i < j` of a sorted list whose
/// branches are both merged or both unmerged, the name of row `i` comes no
/// later than that of row `j`.
pub proof fn lemma_name_order_is_string_order(out: Seq<usize>, input: Seq<usize>, bs: Seq<Branch>, i: int, j: int)
    requires
        stably_sorted(out, input, bs, SortOrder::Name),
        0 <= i < j < out.len(),
        bs[out[i] as int].is_merged == bs[out[j] as int].is_merged,
    ensures
        string_le(bs[out[i] as int].name@, bs[out[j] as int].name@),
{
    assert(index_compare(bs, SortOrder::Name, out[i], out[j]) <= 0);
    lemma_name_compare_string_le(bs[out[i] as int].name@, bs[out[j] as int].name@);
}

} // verus!
