use vstd::prelude::*;

verus! {

/// Where part `index` of a list of `len` items starts when the list is cut into
/// `parts` parts: each part has `len / parts` items, and the last one takes
/// what is left over. The part behind the last one starts at the list's end.
pub open spec fn part_start(len: nat, parts: nat, index: nat) -> nat {
    if index >= parts {
        len
    } else {
        index * (len / parts)
    }
}

/// The sum of `values`, as a mathematical integer.
pub open spec fn total(values: Seq<i32>) -> int
    decreases values.len(),
{
    if values.len() == 0 {
        0
    } else {
        total(values.drop_last()) + values.last()
    }
}

/// Adding up `values` from the left never leaves the range of `i32`.
pub open spec fn sums_fit(values: Seq<i32>) -> bool {
    forall|k: int|
        0 <= k <= values.len() ==> i32::MIN <= #[trigger] total(values.take(k)) <= i32::MAX
}

/// The sum of the first `n` parts of `list`, each part summed by itself.
pub open spec fn total_of_parts(list: Seq<i32>, parts: nat, n: nat) -> int
    decreases n,
{
    if n == 0 {
        0
    } else {
        total_of_parts(list, parts, (n - 1) as nat) + total(
            list.subrange(
                part_start(list.len(), parts, (n - 1) as nat) as int,
                part_start(list.len(), parts, n) as int,
            ),
        )
    }
}

/// The parts follow one another from the start of the list to its end.
pub proof fn law_parts_tile(len: nat, parts: nat, index: nat)
    requires
        0 < parts,
        index < parts,
    ensures
        part_start(len, parts, 0) == 0,
        part_start(len, parts, parts) == len,
        part_start(len, parts, index) <= part_start(len, parts, index + 1) <= len,
        index + 1 < parts ==> part_start(len, parts, index + 1) - part_start(len, parts, index)
            == len / parts,
{
    let size = len / parts;
    assert(index * size + size == (index + 1) * size) by (nonlinear_arith);
    assert((index + 1) * size <= parts * size) by (nonlinear_arith)
        requires
            index + 1 <= parts,
    ;
    assert(parts * size <= len) by (nonlinear_arith)
        requires
            size == len / parts,
            0 < parts,
    ;
}

/// The sum of two lists in a row is the sum of their sums.
pub proof fn law_total_of_concat(a: Seq<i32>, b: Seq<i32>)
    ensures
        total(a + b) == total(a) + total(b),
    decreases b.len(),
{
    if b.len() == 0 {
        assert(a + b =~= a);
    } else {
        assert((a + b).drop_last() =~= a + b.drop_last());
        law_total_of_concat(a, b.drop_last());
    }
}

/// Taking one value out of a list takes it out of the sum.
proof fn lemma_total_of_remove(values: Seq<i32>, i: int)
    requires
        0 <= i < values.len(),
    ensures
        total(values) == total(values.remove(i)) + values[i],
{
    let before = values.take(i);
    let after = values.skip(i + 1);
    assert(values =~= before.push(values[i]) + after);
    assert(values.remove(i) =~= before + after);
    assert(before.push(values[i]).drop_last() =~= before);
    law_total_of_concat(before.push(values[i]), after);
    law_total_of_concat(before, after);
}

/// The sum does not depend on the order of the values: two lists that hold
/// the same values, each as often as the other, have the same sum.
pub proof fn law_total_of_permutation(a: Seq<i32>, b: Seq<i32>)
    requires
        a.to_multiset() == b.to_multiset(),
    ensures
        total(a) == total(b),
    decreases a.len(),
{
    broadcast use vstd::multiset::group_multiset_axioms;

    a.to_multiset_ensures();
    b.to_multiset_ensures();
    if a.len() > 0 {
        let x = a.last();
        let rest = a.drop_last();
        assert(rest.push(x) =~= a);
        rest.to_multiset_ensures();
        assert(a[a.len() - 1] == x);
        assert(a.contains(x));
        assert(a.to_multiset().count(x) > 0);
        assert(b.to_multiset().count(x) > 0);
        assert(b.contains(x));
        let i = choose|i: int| 0 <= i < b.len() && b[i] == x;
        let others = b.remove(i);
        assert(others.to_multiset() =~= rest.to_multiset());
        law_total_of_permutation(rest, others);
        lemma_total_of_remove(b, i);
    }
}

/// Summing the parts one by one and adding up what comes out gives the sum of
/// the list.
pub proof fn law_parts_add_up(list: Seq<i32>, parts: nat)
    requires
        0 < parts,
    ensures
        total_of_parts(list, parts, parts) == total(list),
{
    lemma_parts_add_up_to(list, parts, parts);
    assert(list.take(list.len() as int) =~= list);
}

proof fn lemma_parts_add_up_to(list: Seq<i32>, parts: nat, n: nat)
    requires
        0 < parts,
        n <= parts,
    ensures
        total_of_parts(list, parts, n) == total(
            list.take(part_start(list.len(), parts, n) as int),
        ),
    decreases n,
{
    if n == 0 {
        assert(part_start(list.len(), parts, 0) == 0);
        assert(list.take(0) =~= Seq::<i32>::empty());
    } else {
        let from = part_start(list.len(), parts, (n - 1) as nat) as int;
        let to = part_start(list.len(), parts, n) as int;
        lemma_parts_add_up_to(list, parts, (n - 1) as nat);
        law_parts_tile(list.len(), parts, (n - 1) as nat);
        law_total_of_concat(list.take(from), list.subrange(from, to));
        assert(list.take(from) + list.subrange(from, to) =~= list.take(to));
    }
}

/// The bounds of part `index` of a list of `len` items cut into `parts` parts:
/// where it starts, and where the next one starts.
pub fn part_bounds(len: usize, parts: usize, index: usize) -> (bounds: (usize, usize))
    requires
        0 < parts,
        index < parts,
    ensures
        bounds.0 == part_start(len as nat, parts as nat, index as nat),
        bounds.1 == part_start(len as nat, parts as nat, (index + 1) as nat),
{
    let size = len / parts;
    proof {
        law_parts_tile(len as nat, parts as nat, index as nat);
        assert(index * size + size == (index + 1) * size) by (nonlinear_arith);
    }
    let start = index * size;
    let end = if index == parts - 1 {
        len
    } else {
        start + size
    };
    (start, end)
}

/// The sum of `values`, added up from the left, or `None` if that leaves the
/// range of `i32` on the way.
pub fn checked_sum(values: &[i32]) -> (sum: Option<i32>)
    ensures
        sum is Some <==> sums_fit(values@),
        sum matches Some(s) ==> s == total(values@),
{
    let mut acc: i32 = 0;
    let mut i: usize = 0;
    assert(values@.take(0) =~= Seq::<i32>::empty());
    while i < values.len()
        invariant
            i <= values.len(),
            acc == total(values@.take(i as int)),
            forall|k: int|
                0 <= k <= i ==> i32::MIN <= #[trigger] total(values@.take(k)) <= i32::MAX,
        decreases values.len() - i,
    {
        assert(values@.take(i + 1).drop_last() =~= values@.take(i as int));
        match acc.checked_add(values[i]) {
            Some(next) => {
                acc = next;
            },
            None => {
                assert(total(values@.take(i + 1)) == acc + values@[i as int]);
                assert(!sums_fit(values@));
                return None;
            },
        }
        i = i + 1;
    }
    assert(values@.take(values.len() as int) =~= values@);
    Some(acc)
}

} // verus!
