//! Runs: the blocks of consecutive table rows that begin with a measurement.

use vstd::prelude::*;
use crate::cell::cell_at;
use crate::cell::Cell;

verus! {

/// A block of consecutive rows: `len` rows, the first at index `start`.
#[derive(Clone, Copy, Debug, PartialEq, Eq)]
pub struct Run {
    pub start: usize,
    pub len: usize,
}

impl Run {
    /// Whether the row at `index` belongs to the run.
    pub open spec fn covers(self, index: int) -> bool {
        self.start <= index < self.start + self.len
    }
}

/// Whether a row begins with a measurement. A row without cells does not.
pub open spec fn leads(row: Seq<Cell>) -> bool {
    cell_at(row, 0) is Number
}

/// For each row of a table, whether it begins with a measurement.
pub open spec fn flags_of(table: Seq<Vec<Cell>>) -> Seq<bool> {
    Seq::new(table.len(), |i: int| leads(table[i]@))
}

/// The index at which a run that holds row `i` ends: the first index from `i`
/// on whose row is not flagged, or the length of the table.
pub open spec fn run_end(flags: Seq<bool>, i: int) -> int
    decreases flags.len() - i,
{
    if 0 <= i < flags.len() && flags[i] {
        run_end(flags, i + 1)
    } else {
        i
    }
}

/// A run does not end before the row it is asked from, nor after the table,
/// every row up to its end is flagged, and the row at its end is not.
pub proof fn lemma_run_end(flags: Seq<bool>, i: int)
    requires
        0 <= i <= flags.len(),
    ensures
        i <= run_end(flags, i) <= flags.len(),
        forall|p: int| i <= p < run_end(flags, i) ==> flags[p],
        run_end(flags, i) < flags.len() ==> !flags[run_end(flags, i)],
        i < flags.len() && flags[i] ==> i < run_end(flags, i),
    decreases flags.len() - i,
{
    if i < flags.len() && flags[i] {
        lemma_run_end(flags, i + 1);
    }
}

/// The runs of a table from row `i` on, in the order of the rows: each begins
/// at a flagged row that no flagged row precedes, and goes on to the last
/// flagged row before the next that is not.
pub open spec fn runs_from(flags: Seq<bool>, i: int) -> Seq<Run>
    decreases flags.len() - i,
{
    if i < 0 || i >= flags.len() {
        Seq::empty()
    } else if !flags[i] {
        runs_from(flags, i + 1)
    } else {
        proof {
            lemma_run_end(flags, i);
        }
        let end = run_end(flags, i);
        seq![Run { start: i as usize, len: (end - i) as usize }] + runs_from(flags, end)
    }
}

/// The runs of a table.
pub open spec fn runs_of(flags: Seq<bool>) -> Seq<Run> {
    runs_from(flags, 0)
}

/// Whether `run` is a run of the table: it holds at least one row, all its
/// rows are flagged, and neither the row before it nor the row after it is.
pub open spec fn is_run(flags: Seq<bool>, run: Run) -> bool {
    &&& run.len >= 1
    &&& run.start + run.len <= flags.len()
    &&& forall|p: int| run.covers(p) ==> flags[p]
    &&& run.start == 0 || !flags[run.start - 1]
    &&& run.start + run.len == flags.len() || !flags[run.start + run.len]
}

/// Whether one of `runs` holds the row at `index`.
pub open spec fn covered(runs: Seq<Run>, index: int) -> bool {
    exists|k: int| 0 <= k < runs.len() && (#[trigger] runs[k]).covers(index)
}

/// Whether `runs` are the runs of the first `n` rows of the table, in the
/// order of the rows: each is a run, each ends before the next begins, and
/// every flagged row among the first `n` is in one of them.
pub open spec fn partitions(flags: Seq<bool>, runs: Seq<Run>, n: int) -> bool {
    &&& forall|k: int| 0 <= k < runs.len() ==> is_run(flags, #[trigger] runs[k])
    &&& forall|k: int, l: int|
        0 <= k < l < runs.len() ==> (#[trigger] runs[k]).start + runs[k].len < (
        #[trigger] runs[l]).start
    &&& forall|p: int| 0 <= p < n && flags[p] ==> covered(runs, p)
}

/// Whether the row begins with a measurement.
pub fn row_leads(row: &[Cell]) -> (r: bool)
    ensures
        r == leads(row@),
{
    row.len() > 0 && row[0].is_number()
}

/// Finds the runs of a table: the maximal blocks of consecutive rows that
/// begin with a measurement, in the order of the rows. A row that begins with
/// anything else, or holds no cell, ends a run; no run is empty.
pub fn detect_runs(table: &[Vec<Cell>]) -> (r: Vec<Run>)
    ensures
        r@ == runs_of(flags_of(table@)),
        partitions(flags_of(table@), r@, table@.len() as int),
{
    let ghost flags = flags_of(table@);
    let n: usize = table.len();
    let mut runs: Vec<Run> = Vec::new();
    let mut i: usize = 0;
    while i < n
        invariant
            i <= n,
            n == table@.len(),
            flags == flags_of(table@),
            i < n ==> i == 0 || !flags[i - 1],
            runs@ + runs_from(flags, i as int) == runs_of(flags),
            partitions(flags, runs@, i as int),
            forall|k: int| 0 <= k < runs@.len() ==> (#[trigger] runs@[k]).start + runs@[k].len <= i,
        decreases n - i,
    {
        if !row_leads(table[i].as_slice()) {
            assert(runs_from(flags, i as int) == runs_from(flags, i + 1));
            i += 1;
        } else {
            let start: usize = i;
            let mut end: usize = i + 1;
            while end < n && row_leads(table[end].as_slice())
                invariant
                    start < end <= n,
                    n == table@.len(),
                    flags == flags_of(table@),
                    flags[start as int],
                    run_end(flags, start as int) == run_end(flags, end as int),
                    forall|p: int| start <= p < end ==> flags[p],
                decreases n - end,
            {
                end += 1;
            }
            let run = Run { start, len: end - start };
            proof {
                let old_runs = runs@;
                let new_runs = runs@.push(run);
                assert(run_end(flags, start as int) == end);
                assert(runs_from(flags, start as int) == seq![run] + runs_from(
                    flags,
                    end as int,
                ));
                assert(new_runs + runs_from(flags, end as int) =~= old_runs + (seq![run]
                    + runs_from(flags, end as int)));
                assert(is_run(flags, run));
                assert forall|p: int| 0 <= p < end && flags[p] implies covered(new_runs, p) by {
                    if p < start {
                        let k = choose|k: int|
                            0 <= k < old_runs.len() && (#[trigger] old_runs[k]).covers(p);
                        assert(new_runs[k].covers(p));
                    } else {
                        assert(new_runs[old_runs.len() as int].covers(p));
                    }
                }
                assert forall|k: int, l: int| 0 <= k < l < new_runs.len() implies (
                #[trigger] new_runs[k]).start + new_runs[k].len < (#[trigger] new_runs[l]).start by {
                    if l == old_runs.len() {
                        assert(old_runs[k].start + old_runs[k].len <= start);
                        if old_runs[k].start + old_runs[k].len == start {
                            assert(is_run(flags, old_runs[k]));
                            assert(start < flags.len());
                        }
                    }
                }
            }
            runs.push(run);
            i = end;
            if i < n {
                assert(runs_from(flags, i as int) == runs_from(flags, i + 1));
                i += 1;
            }
        }
    }
    assert(runs@ + runs_from(flags, i as int) =~= runs@);
    runs
}

} // verus!
