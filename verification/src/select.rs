//! Picking positions out of a list, in order.

use vstd::prelude::*;

verus! {

/// `picked` lists, in rising order, exactly the positions below `n` of which
/// `keep` holds.
pub open spec fn lists_exactly(picked: Seq<usize>, n: int, keep: spec_fn(int) -> bool) -> bool {
    &&& forall|a: int, b: int| 0 <= a < b < picked.len() ==> picked[a] < picked[b]
    &&& forall|a: int| 0 <= a < picked.len() ==> picked[a] < n && keep(#[trigger] picked[a] as int)
    &&& forall|i: int| 0 <= i < n && #[trigger] keep(i) ==> picked.contains(i as usize)
}

/// The condition that holds of the marked positions of `marks`.
pub open spec fn marked(marks: Seq<bool>) -> spec_fn(int) -> bool {
    |i: int| 0 <= i < marks.len() && marks[i]
}

/// `i` is the first marked position of `marks`.
pub open spec fn is_first_marked(marks: Seq<bool>, i: int) -> bool {
    &&& 0 <= i < marks.len()
    &&& marks[i]
    &&& forall|j: int| 0 <= j < i ==> !marks[j]
}

/// Finds the first marked position.
pub fn first_marked(marks: &Vec<bool>) -> (found: Option<usize>)
    ensures
        match found {
            Some(i) => is_first_marked(marks@, i as int),
            None => forall|j: int| 0 <= j < marks.len() ==> !marks@[j],
        },
{
    let mut i: usize = 0;
    while i < marks.len()
        invariant
            i <= marks.len(),
            forall|j: int| 0 <= j < i ==> !marks@[j],
        decreases marks.len() - i,
    {
        if marks[i] {
            return Some(i);
        }
        i += 1;
    }
    None
}

/// Lists the marked positions, in rising order.
pub fn marked_places(marks: &Vec<bool>) -> (places: Vec<usize>)
    ensures
        lists_exactly(places@, marks.len() as int, marked(marks@)),
{
    let mut places: Vec<usize> = Vec::new();
    let mut i: usize = 0;
    while i < marks.len()
        invariant
            i <= marks.len(),
            lists_exactly(places@, i as int, marked(marks@)),
        decreases marks.len() - i,
    {
        proof {
            lemma_lists_exactly_next(places@, i as int, marked(marks@));
        }
        if marks[i] {
            places.push(i);
        }
        i += 1;
    }
    places
}

/// A list lists exactly the same under any other condition that holds of the
/// same positions below `n`.
pub proof fn lemma_lists_exactly_same(
    picked: Seq<usize>,
    n: int,
    keep: spec_fn(int) -> bool,
    other: spec_fn(int) -> bool,
)
    requires
        lists_exactly(picked, n, keep),
        forall|i: int|
            #![trigger keep(i)]
            #![trigger other(i)]
            0 <= i < n ==> keep(i) == other(i),
    ensures
        lists_exactly(picked, n, other),
{
    assert forall|a: int| 0 <= a < picked.len() implies picked[a] < n && other(
        #[trigger] picked[a] as int,
    ) by {
        assert(keep(picked[a] as int));
    }
    assert forall|i: int| 0 <= i < n && #[trigger] other(i) implies picked.contains(i as usize) by {
        assert(keep(i));
    }
}

/// Only one list does so.
pub proof fn lemma_lists_exactly_unique(
    a: Seq<usize>,
    b: Seq<usize>,
    n: int,
    keep: spec_fn(int) -> bool,
)
    requires
        lists_exactly(a, n, keep),
        lists_exactly(b, n, keep),
    ensures
        a == b,
    decreases a.len(),
{
    if a.len() == 0 {
        if b.len() > 0 {
            assert(keep(b[0] as int));
            assert(a.contains(b[0]));
        }
        assert(a =~= b);
    } else {
        let top = a.last();
        assert(keep(top as int));
        assert(b.contains(top));
        let at = choose|i: int| 0 <= i < b.len() && b[i] == top;
        if at < b.len() - 1 {
            assert(keep(b.last() as int));
            assert(a.contains(b.last()));
            let back = choose|i: int| 0 <= i < a.len() && a[i] == b.last();
            assert(a[back] <= top);
        }
        lemma_lists_exactly_front(a, n, keep);
        lemma_lists_exactly_front(b, n, keep);
        lemma_lists_exactly_unique(a.drop_last(), b.drop_last(), top as int, keep);
        assert(a =~= a.drop_last().push(top));
        assert(b =~= b.drop_last().push(top));
    }
}

/// A list that lists exactly the positions below `n` does so below `n + 1`
/// as well, with `n` added where the condition holds of it.
pub proof fn lemma_lists_exactly_next(
    picked: Seq<usize>,
    n: int,
    keep: spec_fn(int) -> bool,
)
    requires
        lists_exactly(picked, n, keep),
        0 <= n <= usize::MAX,
    ensures
        keep(n) ==> lists_exactly(picked.push(n as usize), n + 1, keep),
        !keep(n) ==> lists_exactly(picked, n + 1, keep),
{
    if keep(n) {
        let grown = picked.push(n as usize);
        assert(grown[picked.len() as int] == n as usize);
        assert forall|i: int| 0 <= i < n + 1 && #[trigger] keep(i) implies grown.contains(
            i as usize,
        ) by {
            if i < n {
                assert(picked.contains(i as usize));
                let at = choose|k: int| 0 <= k < picked.len() && picked[k] == i as usize;
                assert(grown[at] == i as usize);
            }
        }
    }
}

/// Without its last position, a list lists exactly what lies below that
/// position.
proof fn lemma_lists_exactly_front(a: Seq<usize>, n: int, keep: spec_fn(int) -> bool)
    requires
        lists_exactly(a, n, keep),
        a.len() > 0,
    ensures
        lists_exactly(a.drop_last(), a.last() as int, keep),
{
    let front = a.drop_last();
    assert forall|i: int| 0 <= i < a.last() && #[trigger] keep(i) implies front.contains(
        i as usize,
    ) by {
        assert(a.contains(i as usize));
        let at = choose|k: int| 0 <= k < a.len() && a[k] == i as usize;
        assert(front[at] == i as usize);
    }
    assert forall|k: int| 0 <= k < front.len() implies front[k] < a.last() && keep(
        #[trigger] front[k] as int,
    ) by {
        assert(front[k] == a[k]);
    }
}

} // verus!
