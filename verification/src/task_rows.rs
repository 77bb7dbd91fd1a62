//! Laying out task periods in rows so that periods in one row do not overlap.

use vstd::prelude::*;
use std::collections::HashMap;

verus! {

broadcast use vstd::std_specs::hash::group_hash_axioms;

/// Every row below `row` holds a period that ends after `start_time`.
pub open spec fn rows_busy_before(m: Map<usize, u64>, start_time: u64, row: int) -> bool {
    forall|j: usize| j < row ==> (#[trigger] m.contains_key(j) && m[j] > start_time)
}

/// The row is free at `start_time`: it holds no period, or one that ended by then.
pub open spec fn row_free(m: Map<usize, u64>, start_time: u64, row: usize) -> bool {
    !m.contains_key(row) || m[row] <= start_time
}

/// The rows below `n`.
spec fn rows_below(n: int) -> Set<usize> {
    Set::new(|j: usize| j < n)
}

proof fn lemma_rows_below(n: int)
    requires
        0 <= n <= usize::MAX + 1,
    ensures
        rows_below(n).finite(),
        rows_below(n).len() == n,
    decreases n,
{
    if n == 0 {
        assert(rows_below(0) =~= Set::<usize>::empty());
    } else {
        lemma_rows_below(n - 1);
        assert(rows_below(n) =~= rows_below(n - 1).insert((n - 1) as usize));
    }
}

/// The first row that is free at `start_time`.
fn first_free_row(start_time: u64, end_by_row_index: &HashMap<usize, u64>) -> (res: usize)
    ensures
        rows_busy_before(end_by_row_index@, start_time, res as int),
        row_free(end_by_row_index@, start_time, res),
{
    let count = end_by_row_index.len();
    let ghost m = end_by_row_index@;
    let mut row: usize = 0;
    proof {
        assert(rows_below(0) =~= Set::<usize>::empty());
    }
    loop
        invariant
            m == end_by_row_index@,
            count == m.len(),
            m.dom().finite(),
            rows_below(row as int).subset_of(m.dom()),
            rows_busy_before(m, start_time, row as int),
        decreases count - row,
    {
        match end_by_row_index.get(&row) {
            Some(v) => {
                if *v <= start_time {
                    return row;
                }
                proof {
                    assert(m.contains_key(row) && m[row] == *v);
                    assert forall|j: usize| j < row + 1 implies m.contains_key(j) by {
                        if j < row {
                            assert(rows_busy_before(m, start_time, row as int));
                            assert(m.contains_key(j));
                        }
                    }
                    assert forall|j: usize| j < row + 1 && m.contains_key(j) implies m[j] > start_time by {
                        if j < row {
                            assert(rows_busy_before(m, start_time, row as int));
                            assert(m.contains_key(j));
                        } else {
                            assert(j == row);
                        }
                    }
                    assert forall|j: usize| j < row + 1 implies (#[trigger] m.contains_key(j) && m[j] > start_time) by {
                        assert(m.contains_key(j));
                    }
                    assert(rows_busy_before(m, start_time, row + 1));
                    assert(rows_below(row + 1) =~= rows_below(row as int).insert(row));
                    lemma_rows_below(row + 1);
                    vstd::set_lib::lemma_len_subset(rows_below(row + 1), m.dom());
                }
            },
            None => {
                return row;
            },
        }
        row = row + 1;
    }
}

/// The first row that is free at `start_time`: one whose last period ended by then, or
/// that holds none yet. The row then holds a period until `end_time`. Every row before
/// it is busy past `start_time`.
pub fn get_task_row_index(
    start_time: u64,
    end_time: u64,
    end_by_row_index: &mut HashMap<usize, u64>,
) -> (res: usize)
    ensures
        rows_busy_before(old(end_by_row_index)@, start_time, res as int),
        row_free(old(end_by_row_index)@, start_time, res),
        final(end_by_row_index)@ == old(end_by_row_index)@.insert(res, end_time),
{
    let row = first_free_row(start_time, end_by_row_index);
    end_by_row_index.insert(row, end_time);
    row
}

} // verus!
