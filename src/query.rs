//! Point queries over collections of range-tagged entries: the most specific
//! range that contains a point wins.
use vstd::prelude::*;
use crate::position::{Position, Range, pos_le, position_le};

verus! {

/// `p` lies in `r`, both ends included.
pub open spec fn range_contains(r: Range, p: Position) -> bool {
    pos_le(r.start, p) && pos_le(p, r.end)
}

/// `inner` lies within `outer`.
pub open spec fn range_nested(inner: Range, outer: Range) -> bool {
    pos_le(outer.start, inner.start) && pos_le(inner.end, outer.end)
}

/// The ranges of a sequence of range-tagged entries.
pub open spec fn ranges_of<T>(s: Seq<(Range, T)>) -> Seq<Range> {
    s.map_values(|e: (Range, T)| e.0)
}

/// The running best after scanning the first `n` ranges for `p`: a containing
/// range becomes the best when there is none yet or when it is nested in the
/// current best; otherwise the current best stays.
pub open spec fn best_upto(rs: Seq<Range>, p: Position, n: nat) -> Option<int>
    decreases n,
{
    if n == 0 {
        None
    } else {
        let prev = best_upto(rs, p, (n - 1) as nat);
        let i = n - 1;
        if range_contains(rs[i], p) {
            match prev {
                None => Some(i),
                Some(b) => if range_nested(rs[i], rs[b]) {
                    Some(i)
                } else {
                    prev
                },
            }
        } else {
            prev
        }
    }
}

/// The index of the most specific range of `rs` that contains `p`.
pub open spec fn best_match(rs: Seq<Range>, p: Position) -> Option<int> {
    best_upto(rs, p, rs.len())
}

/// The running best is a containing range among the first `n`, and there is
/// none exactly when none of them contains `p`.
pub proof fn lemma_best_upto(rs: Seq<Range>, p: Position, n: nat)
    requires
        n <= rs.len(),
    ensures
        match best_upto(rs, p, n) {
            None => forall|i: int| 0 <= i < n ==> !range_contains(#[trigger] rs[i], p),
            Some(b) => 0 <= b < n && range_contains(rs[b], p),
        },
    decreases n,
{
    if n > 0 {
        lemma_best_upto(rs, p, (n - 1) as nat);
    }
}

/// A zero-width range at a point contains that point, so a query at that
/// point over any collection that holds such a range finds a match.
pub proof fn lemma_point_range_matches(rs: Seq<Range>, p: Position, k: int)
    requires
        0 <= k < rs.len(),
        rs[k] == (Range { start: p, end: p }),
    ensures
        range_contains(rs[k], p),
        best_match(rs, p) is Some,
{
    lemma_best_upto(rs, p, rs.len());
}

/// After the range at `ib` has been scanned, the running best is nested in it
/// whenever it encloses it.
proof fn lemma_best_after(rs: Seq<Range>, p: Position, ib: int, n: nat)
    requires
        0 <= ib < n <= rs.len(),
        range_contains(rs[ib], p),
    ensures
        best_upto(rs, p, n) is Some,
        range_nested(rs[ib], rs[best_upto(rs, p, n)->0]) ==> range_nested(
            rs[best_upto(rs, p, n)->0],
            rs[ib],
        ),
    decreases n,
{
    lemma_best_upto(rs, p, n);
    if n > ib + 1 {
        lemma_best_after(rs, p, ib, (n - 1) as nat);
    } else {
        lemma_best_upto(rs, p, (n - 1) as nat);
    }
}

/// Nesting decides between overlapping ranges: when the range at `ib` contains
/// the point and lies strictly within the range at `ia`, a query never answers
/// with the enclosing one, whatever the order of the two.
pub proof fn lemma_nested_wins(rs: Seq<Range>, p: Position, ia: int, ib: int)
    requires
        0 <= ia < rs.len(),
        0 <= ib < rs.len(),
        range_contains(rs[ib], p),
        range_nested(rs[ib], rs[ia]),
        !range_nested(rs[ia], rs[ib]),
    ensures
        best_match(rs, p) is Some,
        best_match(rs, p) != Some(ia),
{
    lemma_best_after(rs, p, ib, rs.len());
}

/// Finds the entry whose range is the most specific one containing `p`.
pub fn find_best<T>(entries: &Vec<(Range, T)>, p: &Position) -> (r: Option<usize>)
    ensures
        r matches Some(i) ==> i < entries.len() && range_contains(entries@[i as int].0, *p),
        r is None <==> forall|i: int|
            0 <= i < entries.len() ==> !range_contains(#[trigger] entries@[i].0, *p),
        r matches Some(i) ==> best_match(ranges_of(entries@), *p) == Some(i as int),
        r is None ==> best_match(ranges_of(entries@), *p) is None,
{
    let ghost rs = ranges_of(entries@);
    let mut best: Option<usize> = None;
    let mut i: usize = 0;
    while i < entries.len()
        invariant
            i <= entries.len(),
            rs == ranges_of(entries@),
            best == (match best_upto(rs, *p, i as nat) {
                Some(b) => Some(b as usize),
                None => None::<usize>,
            }),
            best matches Some(b) ==> b < i,
        decreases entries.len() - i,
    {
        let r = &entries[i].0;
        proof {
            lemma_best_upto(rs, *p, i as nat);
        }
        if position_le(&r.start, p) && position_le(p, &r.end) {
            match best {
                None => {
                    best = Some(i);
                },
                Some(b) => {
                    let cur = &entries[b].0;
                    if position_le(&cur.start, &r.start) && position_le(&r.end, &cur.end) {
                        best = Some(i);
                    }
                },
            }
        }
        i = i + 1;
    }
    proof {
        lemma_best_upto(rs, *p, rs.len());
        assert forall|j: int| 0 <= j < entries.len() implies (#[trigger] entries@[j].0) == rs[j] by {}
    }
    best
}

} // verus!
