//! The frame buffer: rows of terminal cells split into partitions (one per render worker),
//! and which cells of a row must be redrawn when a frame replaces the previous one.
use vstd::prelude::*;

verus! {

/// The runs of consecutive `true` entries of `d`, left to right, each as `(start, end)` with
/// `start` the first index of the run and `end` one past its last.
pub open spec fn runs_of(d: Seq<bool>) -> Seq<(int, int)>
    decreases d.len(),
{
    if d.len() == 0 {
        Seq::empty()
    } else {
        let rest = runs_of(d.drop_last());
        let i = d.len() - 1;
        if !d.last() {
            rest
        } else if rest.len() > 0 && rest.last().1 == i {
            rest.update(rest.len() - 1, (rest.last().0, i + 1))
        } else {
            rest.push((i, i + 1))
        }
    }
}

/// The stretches of a row to redraw: `changed[c]` says whether cell `c` differs from the frame on
/// screen, and each maximal run of changed cells, left to right, is one stretch `(start, end)`
/// (the cursor is moved once, to `start`, and cells `start` to `end - 1` are printed).
pub fn changed_spans(changed: &Vec<bool>) -> (spans: Vec<(usize, usize)>)
    ensures
        spans@.len() == runs_of(changed@).len(),
        forall|k: int|
            0 <= k < spans@.len() ==> (#[trigger] spans@[k]).0 == runs_of(changed@)[k].0
                && spans@[k].1 == runs_of(changed@)[k].1,
{
    let mut spans: Vec<(usize, usize)> = Vec::new();
    let mut c: usize = 0;
    let n = changed.len();
    assert(changed@.take(0) =~= Seq::<bool>::empty());
    while c < n
        invariant
            n == changed@.len(),
            0 <= c <= n,
            spans@.len() == runs_of(changed@.take(c as int)).len(),
            forall|k: int|
                0 <= k < spans@.len() ==> (#[trigger] spans@[k]).0 == runs_of(
                    changed@.take(c as int),
                )[k].0 && spans@[k].1 == runs_of(changed@.take(c as int))[k].1,
        decreases n - c,
    {
        assert(changed@.take(c + 1).drop_last() =~= changed@.take(c as int));
        assert(changed@.take(c + 1).last() == changed@[c as int]);
        if changed[c] {
            let len = spans.len();
            if len > 0 && spans[len - 1].1 == c {
                let start = spans[len - 1].0;
                spans.set(len - 1, (start, c + 1));
            } else {
                spans.push((c, c + 1));
            }
        }
        c += 1;
    }
    assert(changed@.take(n as int) =~= changed@);
    spans
}

proof fn lemma_runs_shape(d: Seq<bool>)
    ensures
        forall|k: int|
            0 <= k < runs_of(d).len() ==> 0 <= (#[trigger] runs_of(d)[k]).0 < runs_of(d)[k].1
                <= d.len(),
        forall|k: int|
            0 <= k < runs_of(d).len() - 1 ==> (#[trigger] runs_of(d)[k]).1 < runs_of(d)[k + 1].0,
        forall|k: int, c: int|
            0 <= k < runs_of(d).len() && (#[trigger] runs_of(d)[k]).0 <= c < runs_of(d)[k].1 ==> #[trigger] d[c],
        forall|c: int|
            0 <= c < d.len() && #[trigger] d[c] ==> exists|k: int|
                0 <= k < runs_of(d).len() && (#[trigger] runs_of(d)[k]).0 <= c < runs_of(d)[k].1,
        forall|k: int|
            0 <= k < runs_of(d).len() && (#[trigger] runs_of(d)[k]).0 > 0 ==> !d[runs_of(d)[k].0
                - 1],
        forall|k: int|
            0 <= k < runs_of(d).len() && (#[trigger] runs_of(d)[k]).1 < d.len() ==> !d[runs_of(
                d,
            )[k].1],
    decreases d.len(),
{
    if d.len() > 0 {
        let e = d.drop_last();
        lemma_runs_shape(e);
        let rest = runs_of(e);
        let r = runs_of(d);
        let i = d.len() - 1;
        assert forall|c: int| 0 <= c < e.len() implies e[c] == d[c] by {}
        if !d.last() {
            assert forall|c: int| 0 <= c < d.len() && #[trigger] d[c] implies exists|k: int|
                0 <= k < r.len() && (#[trigger] r[k]).0 <= c < r[k].1 by {
                assert(e[c]);
            }
        } else if rest.len() > 0 && rest.last().1 == i {
            assert forall|c: int| 0 <= c < d.len() && #[trigger] d[c] implies exists|k: int|
                0 <= k < r.len() && (#[trigger] r[k]).0 <= c < r[k].1 by {
                if c == i {
                    assert(r[r.len() - 1].0 <= c < r[r.len() - 1].1);
                } else {
                    assert(e[c]);
                    let k = choose|k: int| 0 <= k < rest.len() && (#[trigger] rest[k]).0 <= c < rest[k].1;
                    assert(r[k].0 <= c < r[k].1);
                }
            }
        } else {
            assert forall|c: int| 0 <= c < d.len() && #[trigger] d[c] implies exists|k: int|
                0 <= k < r.len() && (#[trigger] r[k]).0 <= c < r[k].1 by {
                if c == i {
                    assert(r[r.len() - 1].0 <= c < r[r.len() - 1].1);
                } else {
                    assert(e[c]);
                    let k = choose|k: int| 0 <= k < rest.len() && (#[trigger] rest[k]).0 <= c < rest[k].1;
                    assert(r[k].0 <= c < r[k].1);
                }
            }
            if rest.len() > 0 {
                assert(rest.last().1 < i) by {
                    if rest.last().1 == i {
                    } else {
                        assert(rest[rest.len() - 1].1 <= e.len());
                    }
                }
            }
        }
    }
}

/// A row is redrawn exactly where it changed: a cell lies in one of the stretches printed exactly
/// when it differs from the frame on screen. The stretches are non-empty, in order, and separated
/// by at least one unchanged cell.
pub proof fn law_redraw_exactly_the_changes(changed: Seq<bool>)
    ensures
        forall|c: int|
            0 <= c < changed.len() ==> (changed[c] <==> exists|k: int|
                0 <= k < runs_of(changed).len() && (#[trigger] runs_of(changed)[k]).0 <= c
                    < runs_of(changed)[k].1),
        forall|k: int|
            0 <= k < runs_of(changed).len() ==> 0 <= (#[trigger] runs_of(changed)[k]).0 < runs_of(
                changed,
            )[k].1 <= changed.len(),
        forall|k: int|
            0 <= k < runs_of(changed).len() - 1 ==> (#[trigger] runs_of(changed)[k]).1 < runs_of(
                changed,
            )[k + 1].0,
{
    lemma_runs_shape(changed);
}

/// True when `buf` has `counts[p]` rows of `cols` cells in each partition `p`.
pub open spec fn has_layout<T>(buf: Seq<Seq<Seq<Option<T>>>>, counts: Seq<u16>, cols: nat) -> bool {
    &&& buf.len() == counts.len()
    &&& forall|p: int| 0 <= p < buf.len() ==> (#[trigger] buf[p]).len() == counts[p]
    &&& forall|p: int, r: int|
        0 <= p < buf.len() && 0 <= r < buf[p].len() ==> (#[trigger] buf[p][r]).len() == cols
}

/// True when every cell of `buf` is empty.
pub open spec fn all_blank<T>(buf: Seq<Seq<Seq<Option<T>>>>) -> bool {
    forall|p: int, r: int, c: int|
        0 <= p < buf.len() && 0 <= r < buf[p].len() && 0 <= c < buf[p][r].len() ==> (
        #[trigger] buf[p][r][c]) is None
}

/// The cells of one frame, as consecutive blocks of rows ("partitions"), one block per render
/// worker; a cell is `None` when nothing was hit there.
pub struct FrameBuffer<T> {
    inner_buf: Vec<Vec<Vec<Option<T>>>>,
    rows: u16,
    cols: u16,
}

/// The cells of each row.
pub open spec fn rows_view<T>(rows: Seq<Vec<Option<T>>>) -> Seq<Seq<Option<T>>> {
    rows.map_values(|r: Vec<Option<T>>| r@)
}

/// A row of `cols` empty cells.
fn blank_row<T>(cols: u16) -> (row: Vec<Option<T>>)
    ensures
        row@.len() == cols,
        forall|c: int| 0 <= c < cols ==> (#[trigger] row@[c]) is None,
{
    let mut row: Vec<Option<T>> = Vec::new();
    let mut c: u16 = 0;
    while c < cols
        invariant
            c <= cols,
            row@.len() == c,
            forall|j: int| 0 <= j < c ==> (#[trigger] row@[j]) is None,
        decreases cols - c,
    {
        row.push(None);
        c += 1;
    }
    row
}

impl<T> FrameBuffer<T> {
    /// The cells, partition by partition, row by row.
    pub closed spec fn view(&self) -> Seq<Seq<Seq<Option<T>>>> {
        self.inner_buf@.map_values(|p: Vec<Vec<Option<T>>>| rows_view(p@))
    }

    pub closed spec fn total_rows(&self) -> nat {
        self.rows as nat
    }

    pub closed spec fn columns(&self) -> nat {
        self.cols as nat
    }

    /// A blank frame of `total_rows` rows of `columns_per_row` cells, split into one partition per
    /// entry of `partitions_vec`, partition `p` holding `partitions_vec[p]` rows.
    pub fn new(partitions_vec: Vec<u16>, total_rows: u16, columns_per_row: u16) -> (fb: Self)
        ensures
            has_layout(fb@, partitions_vec@, columns_per_row as nat),
            all_blank(fb@),
            fb.total_rows() == total_rows,
            fb.columns() == columns_per_row,
    {
        let mut outer: Vec<Vec<Vec<Option<T>>>> = Vec::new();
        let mut p: usize = 0;
        while p < partitions_vec.len()
            invariant
                p <= partitions_vec@.len(),
                outer@.len() == p,
                forall|i: int| 0 <= i < p ==> (#[trigger] outer@[i])@.len() == partitions_vec@[i],
                forall|i: int, r: int|
                    0 <= i < p && 0 <= r < outer@[i]@.len() ==> (#[trigger] outer@[i]@[r])@.len()
                        == columns_per_row,
                forall|i: int, r: int, c: int|
                    0 <= i < p && 0 <= r < outer@[i]@.len() && 0 <= c < outer@[i]@[r]@.len() ==> (
                    #[trigger] outer@[i]@[r]@[c]) is None,
            decreases partitions_vec@.len() - p,
        {
            let count = partitions_vec[p];
            let mut rows_in_partition: Vec<Vec<Option<T>>> = Vec::new();
            let mut r: u16 = 0;
            while r < count
                invariant
                    r <= count,
                    rows_in_partition@.len() == r,
                    forall|j: int|
                        0 <= j < r ==> (#[trigger] rows_in_partition@[j])@.len() == columns_per_row,
                    forall|j: int, c: int|
                        0 <= j < r && 0 <= c < rows_in_partition@[j]@.len() ==> (
                        #[trigger] rows_in_partition@[j]@[c]) is None,
                decreases count - r,
            {
                rows_in_partition.push(blank_row(columns_per_row));
                r += 1;
            }
            outer.push(rows_in_partition);
            p += 1;
        }
        FrameBuffer { inner_buf: outer, rows: total_rows, cols: columns_per_row }
    }

    /// Takes partition `index` out of the frame (to hand it to its worker), leaving it empty.
    pub fn take_partition(&mut self, index: usize) -> (part: Vec<Vec<Option<T>>>)
        requires
            index < old(self)@.len(),
        ensures
            rows_view(part@) == old(self)@[index as int],
            final(self)@ == old(self)@.update(index as int, Seq::empty()),
            final(self).total_rows() == old(self).total_rows(),
            final(self).columns() == old(self).columns(),
    {
        let mut part: Vec<Vec<Option<T>>> = Vec::new();
        std::mem::swap(&mut part, &mut self.inner_buf[index]);
        proof {
            assert(self.inner_buf@[index as int]@ == Seq::<Vec<Option<T>>>::empty());
            assert forall|i: int| 0 <= i < self.inner_buf@.len() && i != index implies #[trigger] self.inner_buf@[i] == old(self).inner_buf@[i] by {}
            assert(rows_view(Seq::<Vec<Option<T>>>::empty()) =~= Seq::empty());
            assert(self@ =~= old(self)@.update(index as int, Seq::empty()));
        }
        part
    }

    /// Puts `partition` back into the frame as partition `index`.
    pub fn put_partition(&mut self, index: usize, partition: Vec<Vec<Option<T>>>)
        requires
            index < old(self)@.len(),
        ensures
            final(self)@ == old(self)@.update(
                index as int,
                rows_view(partition@),
            ),
            final(self).total_rows() == old(self).total_rows(),
            final(self).columns() == old(self).columns(),
    {
        self.inner_buf.set(index, partition);
        proof {
            assert(self@ =~= old(self)@.update(
                index as int,
                rows_view(partition@),
            ));
        }
    }

    /// Partition `index`, row by row.
    pub fn partition(&self, index: usize) -> (part: &Vec<Vec<Option<T>>>)
        requires
            index < self@.len(),
        ensures
            rows_view(part@) == self@[index as int],
    {
        &self.inner_buf[index]
    }

    /// Empties every cell, keeping the layout.
    pub fn clear(&mut self)
        ensures
            final(self)@.len() == old(self)@.len(),
            forall|p: int|
                0 <= p < old(self)@.len() ==> (#[trigger] final(self)@[p]).len() == old(self)@[p].len(),
            forall|p: int, r: int|
                0 <= p < old(self)@.len() && 0 <= r < old(self)@[p].len() ==> (#[trigger] final(self)@[p][r]).len() == old(self)@[p][r].len(),
            all_blank(final(self)@),
            final(self).total_rows() == old(self).total_rows(),
            final(self).columns() == old(self).columns(),
    {
        let n = self.inner_buf.len();
        let mut p: usize = 0;
        while p < n
            invariant
                n == self@.len(),
                p <= n,
                self@.len() == old(self)@.len(),
                forall|i: int| 0 <= i < n ==> (#[trigger] self@[i]).len() == old(self)@[i].len(),
                forall|i: int, r: int|
                    0 <= i < n && 0 <= r < self@[i].len() ==> (#[trigger] self@[i][r]).len() == old(self)@[i][r].len(),
                forall|i: int, r: int, c: int|
                    0 <= i < p && 0 <= r < self@[i].len() && 0 <= c < self@[i][r].len() ==> (
                    #[trigger] self@[i][r][c]) is None,
                self.total_rows() == old(self).total_rows(),
                self.columns() == old(self).columns(),
            decreases n - p,
        {
            let ghost cur = self@;
            let mut part = self.take_partition(p);
            let m = part.len();
            assert forall|j: int| 0 <= j < m implies (#[trigger] part@[j])@ == cur[p as int][j] by {
                assert(rows_view(part@)[j] == part@[j]@);
            }
            let mut r: usize = 0;
            while r < m
                invariant
                    m == part@.len(),
                    r <= m,
                    forall|j: int| 0 <= j < m ==> (#[trigger] part@[j])@.len() == cur[p as int][j].len(),
                    forall|j: int, c: int|
                        0 <= j < r && 0 <= c < part@[j]@.len() ==> (#[trigger] part@[j]@[c]) is None,
                decreases m - r,
            {
                let mut row: Vec<Option<T>> = Vec::new();
                std::mem::swap(&mut row, &mut part[r]);
                let k = row.len();
                let mut c: usize = 0;
                while c < k
                    invariant
                        k == row@.len(),
                        c <= k,
                        forall|j: int| 0 <= j < c ==> (#[trigger] row@[j]) is None,
                    decreases k - c,
                {
                    row.set(c, None);
                    c += 1;
                }
                part.set(r, row);
                r += 1;
            }
            self.put_partition(p, part);
            p += 1;
        }
    }

    /// The frame's height in rows.
    pub fn rows(&self) -> (r: u16)
        ensures
            r == self.total_rows(),
    {
        self.rows
    }

    /// The frame's width in cells.
    pub fn cols(&self) -> (c: u16)
        ensures
            c == self.columns(),
    {
        self.cols
    }

    /// How many partitions the frame is split into.
    pub fn partitions(&self) -> (n: usize)
        ensures
            n == self@.len(),
    {
        self.inner_buf.len()
    }
}

/// Handing a partition out and putting the same rows back leaves the frame as it was.
pub proof fn law_take_then_put_restores<T>(frame: Seq<Seq<Seq<Option<T>>>>, index: int)
    requires
        0 <= index < frame.len(),
    ensures
        frame.update(index, Seq::empty()).update(index, frame[index]) == frame,
{
    assert(frame.update(index, Seq::empty()).update(index, frame[index]) =~= frame);
}

} // verus!
