use vstd::prelude::*;

verus! {

/// The sum of a sequence of counts.
pub open spec fn sum(s: Seq<usize>) -> int
    decreases s.len(),
{
    if s.len() == 0 {
        0
    } else {
        sum(s.drop_last()) + s.last()
    }
}

/// The total number of trail nodes, given the node count of each trail, or
/// `None` when the total does not fit in a `usize`.
pub fn node_count(trail_nodes: &Vec<usize>) -> (total: Option<usize>)
    ensures
        match total {
            Some(t) => t == sum(trail_nodes@),
            None => sum(trail_nodes@) > usize::MAX,
        },
{
    let mut total: usize = 0;
    let mut k: usize = 0;
    while k < trail_nodes.len()
        invariant
            k <= trail_nodes.len(),
            total == sum(trail_nodes@.take(k as int)),
        decreases trail_nodes.len() - k,
    {
        assert(trail_nodes@.take(k + 1).drop_last() =~= trail_nodes@.take(k as int));
        let n = trail_nodes[k];
        if n > usize::MAX - total {
            proof {
                lemma_sum_prefix_le(trail_nodes@, k + 1);
            }
            return None;
        }
        total = total + n;
        k = k + 1;
    }
    assert(trail_nodes@.take(k as int) =~= trail_nodes@);
    Some(total)
}

/// A prefix never sums to more than the whole sequence.
proof fn lemma_sum_prefix_le(s: Seq<usize>, k: int)
    requires
        0 <= k <= s.len(),
    ensures
        sum(s.take(k)) <= sum(s),
    decreases s.len() - k,
{
    if k < s.len() {
        lemma_sum_prefix_le(s, k + 1);
        assert(s.take(k + 1).drop_last() =~= s.take(k));
    } else {
        assert(s.take(k) =~= s);
    }
}

/// The cells of a `w` by `h` square of bodies, in the order in which they
/// are spawned: column by column, and top to bottom within a column.
pub fn square_cells(w: u16, h: u16) -> (cells: Vec<(u16, u16)>)
    ensures
        cells@.len() == w * h,
        forall|i: int, j: int|
            0 <= i < w && 0 <= j < h ==> #[trigger] cells@[i * h + j] == (i as u16, j as u16),
{
    let mut cells: Vec<(u16, u16)> = Vec::new();
    let mut i: u16 = 0;
    while i < w
        invariant
            i <= w,
            cells@.len() == i * h,
            forall|a: int, b: int|
                0 <= a < i && 0 <= b < h ==> #[trigger] cells@[a * h + b] == (a as u16, b as u16),
        decreases w - i,
    {
        let mut j: u16 = 0;
        while j < h
            invariant
                i < w,
                j <= h,
                cells@.len() == i * h + j,
                forall|a: int, b: int|
                    0 <= a < i && 0 <= b < h ==> #[trigger] cells@[a * h + b] == (
                        a as u16,
                        b as u16,
                    ),
                forall|b: int| 0 <= b < j ==> #[trigger] cells@[i * h + b] == (i, b as u16),
            decreases h - j,
        {
            let ghost prev = cells@;
            cells.push((i, j));
            proof {
                assert forall|a: int, b: int| 0 <= a < i && 0 <= b < h implies #[trigger] cells@[a
                    * h + b] == (a as u16, b as u16) by {
                    lemma_row_below(a, b, i as int, h as int);
                    assert(prev[a * h + b] == (a as u16, b as u16));
                }
            }
            j = j + 1;
        }
        proof {
            assert((i + 1) * h == i * h + h) by (nonlinear_arith);
            assert forall|a: int, b: int|
                0 <= a < i + 1 && 0 <= b < h implies #[trigger] cells@[a * h + b] == (
                a as u16,
                b as u16,
            ) by {
                if a == i {
                } else {
                }
            }
        }
        i = i + 1;
    }
    cells
}

/// A cell of an earlier column comes before every cell of column `i`.
proof fn lemma_row_below(a: int, b: int, i: int, h: int)
    by (nonlinear_arith)
    requires
        0 <= a < i,
        0 <= b < h,
    ensures
        a * h + b < i * h,
{
}

} // verus!
