//! How the frame's rows are shared out among the render workers.
use vstd::prelude::*;

verus! {

/// How many partitions `rows` rows are split into with `threads` workers available:
/// never more partitions than rows (no empty workers), and always at least one.
pub open spec fn partition_count(rows: nat, threads: nat) -> nat {
    let m = if threads < rows {
        threads
    } else {
        rows
    };
    if m < 1 {
        1
    } else {
        m
    }
}

/// The rows that partition `i` of `n` renders when `rows` rows are dealt out one at a time,
/// round robin from partition 0: an even share, plus one for the first `rows % n` partitions.
pub open spec fn rows_in_partition(rows: nat, n: nat, i: int) -> nat {
    rows / n + if i < rows % n {
        1nat
    } else {
        0nat
    }
}

/// The whole split, partition by partition.
pub open spec fn row_distribution(rows: nat, threads: nat) -> Seq<nat> {
    let n = partition_count(rows, threads);
    Seq::new(n, |i: int| rows_in_partition(rows, n, i))
}

/// The sum of a sequence of counts.
pub open spec fn total(s: Seq<nat>) -> nat
    decreases s.len(),
{
    if s.len() == 0 {
        0
    } else {
        total(s.drop_last()) + s.last()
    }
}

/// Splits `rows` rows among at most `thread_count` render workers: entry `i` of the result is the
/// number of contiguous rows worker `i` renders. Rows are dealt one at a time, round robin,
/// so the shares are as even as possible and any remainder goes to the first workers.
pub fn distribute_rows_over_threads(rows: u16, thread_count: u16) -> (counts: Vec<u16>)
    ensures
        counts@.len() == partition_count(rows as nat, thread_count as nat),
        1 <= thread_count <= rows ==> counts@.len() == thread_count,
        1 <= rows <= thread_count ==> counts@.len() == rows,
        (rows == 0 || thread_count == 0) ==> counts@.len() == 1,
        forall|i: int|
            0 <= i < counts@.len() ==> #[trigger] counts@[i] == row_distribution(
                rows as nat,
                thread_count as nat,
            )[i],
{
    let mut n: usize = thread_count as usize;
    if rows as usize <= n {
        n = rows as usize;
    }
    if n < 1 {
        n = 1;
    }
    let mut counts: Vec<u16> = vec![0u16; n];
    let mut left: u16 = rows;
    let mut ind: usize = 0;
    let ghost mut q: int = 0;
    while left > 0
        invariant
            n == partition_count(rows as nat, thread_count as nat),
            1 <= n <= 65535,
            counts@.len() == n,
            left <= rows,
            0 <= ind < n,
            0 <= q,
            rows - left == q * n + ind,
            forall|i: int| 0 <= i < n ==> #[trigger] counts@[i] == q + if i < ind {
                1int
            } else {
                0int
            },
        decreases left,
    {
        assert(q <= q * n) by (nonlinear_arith)
            requires
                0 <= q,
                1 <= n,
        ;
        counts.set(ind, counts[ind] + 1);
        left = left - 1;
        if ind + 1 == n {
            proof {
                q = q + 1;
                assert((q - 1) * n + n == q * n) by (nonlinear_arith);
            }
            ind = 0;
        } else {
            ind = ind + 1;
        }
    }
    proof {
        vstd::arithmetic::div_mod::lemma_fundamental_div_mod_converse(
            rows as int,
            n as int,
            q,
            ind as int,
        );
    }
    counts
}

/// The number of rows in partitions `0` to `i - 1` together.
pub open spec fn rows_before(counts: Seq<u16>, i: int) -> int
    decreases i,
{
    if i <= 0 {
        0
    } else {
        rows_before(counts, i - 1) + counts[i - 1]
    }
}

proof fn lemma_rows_before_grows(counts: Seq<u16>, i: int, j: int)
    requires
        0 <= i <= j,
    ensures
        rows_before(counts, i) <= rows_before(counts, j),
    decreases j - i,
{
    if i < j {
        lemma_rows_before_grows(counts, i, j - 1);
    }
}

/// The first row of each partition: partition `i` renders the `counts[i]` rows starting at entry
/// `i` of the result, right after the rows of the partitions before it.
pub fn partition_start_rows(counts: &Vec<u16>) -> (starts: Vec<u16>)
    requires
        rows_before(counts@, counts@.len() as int) <= u16::MAX,
    ensures
        starts@.len() == counts@.len(),
        forall|i: int| 0 <= i < starts@.len() ==> #[trigger] starts@[i] == rows_before(counts@, i),
{
    let mut starts: Vec<u16> = Vec::new();
    let mut next: u16 = 0;
    let mut i: usize = 0;
    while i < counts.len()
        invariant
            i <= counts@.len(),
            rows_before(counts@, counts@.len() as int) <= u16::MAX,
            starts@.len() == i,
            next == rows_before(counts@, i as int),
            forall|k: int| 0 <= k < i ==> #[trigger] starts@[k] == rows_before(counts@, k),
        decreases counts@.len() - i,
    {
        starts.push(next);
        proof {
            lemma_rows_before_grows(counts@, i + 1, counts@.len() as int);
        }
        next = next + counts[i];
        i += 1;
    }
    starts
}

proof fn lemma_total_prefix(rows: nat, n: nat, k: nat)
    requires
        1 <= n,
        k <= n,
    ensures
        total(Seq::new(n, |i: int| rows_in_partition(rows, n, i)).take(k as int)) == k * (rows
            / n) + if k < rows % n {
            k
        } else {
            rows % n
        },
    decreases k,
{
    let s = Seq::new(n, |i: int| rows_in_partition(rows, n, i));
    let q = rows / n;
    if k == 0 {
        assert(s.take(0).len() == 0);
        assert(0 * q == 0);
    } else {
        lemma_total_prefix(rows, n, (k - 1) as nat);
        assert(s.take(k as int).drop_last() =~= s.take(k - 1));
        assert(s.take(k as int).last() == s[k - 1]);
        assert(total(s.take(k as int)) == total(s.take(k - 1)) + s[k - 1]);
        assert((k - 1) * q + q == k * q) by (nonlinear_arith);
    }
}

/// Every row is handed to exactly one worker: the shares add up to the number of rows.
pub proof fn law_rows_all_assigned(rows: u16, thread_count: u16)
    ensures
        total(row_distribution(rows as nat, thread_count as nat)) == rows,
{
    let n = partition_count(rows as nat, thread_count as nat);
    let s = row_distribution(rows as nat, thread_count as nat);
    lemma_total_prefix(rows as nat, n, n);
    assert(s.take(n as int) =~= s);
    vstd::arithmetic::div_mod::lemma_fundamental_div_mod(rows as int, n as int);
    assert(n * (rows as nat / n) == (rows as nat / n) * n) by (nonlinear_arith);
}

/// The shares are as even as possible and never grow along the workers: any two differ by at most
/// one row, and an earlier worker never gets fewer rows than a later one.
pub proof fn law_rows_balanced(rows: u16, thread_count: u16, i: int, j: int)
    requires
        0 <= i < j < partition_count(rows as nat, thread_count as nat),
    ensures
        row_distribution(rows as nat, thread_count as nat)[j] <= row_distribution(
            rows as nat,
            thread_count as nat,
        )[i] <= row_distribution(rows as nat, thread_count as nat)[j] + 1,
{
}

/// When there is at least one row, no worker is left without rows.
pub proof fn law_no_idle_worker(rows: u16, thread_count: u16, i: int)
    requires
        rows > 0,
        0 <= i < partition_count(rows as nat, thread_count as nat),
    ensures
        row_distribution(rows as nat, thread_count as nat)[i] >= 1,
{
    let n = partition_count(rows as nat, thread_count as nat);
    vstd::arithmetic::div_mod::lemma_fundamental_div_mod(rows as int, n as int);
    if rows as nat / n == 0 {
        assert(n * (rows as nat / n) == 0) by (nonlinear_arith)
            requires
                rows as nat / n == 0,
        ;
        assert(rows as nat % n == rows);
    }
}

proof fn lemma_rows_before_is_total(counts: Seq<u16>, d: Seq<nat>, k: int)
    requires
        counts.len() == d.len(),
        forall|i: int| 0 <= i < counts.len() ==> counts[i] == d[i],
        0 <= k <= counts.len(),
    ensures
        rows_before(counts, k) == total(d.take(k)),
    decreases k,
{
    if k == 0 {
        assert(d.take(0).len() == 0);
    } else {
        lemma_rows_before_is_total(counts, d, k - 1);
        assert(d.take(k).drop_last() =~= d.take(k - 1));
        assert(d.take(k).last() == d[k - 1]);
    }
}

/// The partitions made for `rows` rows tile the frame: laid end to end from row 0, the last one
/// ends exactly at the last row, so every row is rendered by exactly one worker.
pub proof fn law_partitions_tile_the_frame(rows: u16, thread_count: u16, counts: Seq<u16>)
    requires
        counts.len() == partition_count(rows as nat, thread_count as nat),
        forall|i: int|
            0 <= i < counts.len() ==> #[trigger] counts[i] == row_distribution(
                rows as nat,
                thread_count as nat,
            )[i],
    ensures
        rows_before(counts, counts.len() as int) == rows,
{
    let d = row_distribution(rows as nat, thread_count as nat);
    lemma_rows_before_is_total(counts, d, counts.len() as int);
    assert(d.take(counts.len() as int) =~= d);
    law_rows_all_assigned(rows, thread_count);
}

/// One partition per worker while there are at least as many rows as workers; one per row when
/// there are fewer rows; a single partition when there are no rows or no workers.
pub proof fn law_partition_count(rows: nat, threads: nat)
    ensures
        1 <= threads <= rows ==> partition_count(rows, threads) == threads,
        1 <= rows <= threads ==> partition_count(rows, threads) == rows,
        (rows == 0 || threads == 0) ==> partition_count(rows, threads) == 1,
{
}

} // verus!
