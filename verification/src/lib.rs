//! Column-major flattening of two-dimensional collections.
//!
//! The [`Serialize`] trait turns a sequence of rows (growable vectors,
//! slices, or fixed-size arrays) into a single flat vector in column-major
//! order: the output reads one element from each row in turn, advancing
//! down the rows only after every row has contributed to the current
//! column. Rows of unequal length are truncated to the shortest row.

use vstd::prelude::*;

verus! {

/// The effective column count of a matrix: the minimum row length,
/// or `0` when there are no rows.
pub open spec fn min_row_len<T>(rows: Seq<Seq<T>>) -> nat
    decreases rows.len(),
{
    if rows.len() == 0 {
        0
    } else if rows.len() == 1 {
        rows.last().len()
    } else {
        let rest = min_row_len(rows.drop_last());
        if rows.last().len() < rest {
            rows.last().len()
        } else {
            rest
        }
    }
}

/// The column-major flattening of a matrix: a sequence of length
/// `W * L` (`W` rows, `L = min_row_len`) whose element `i` is
/// `rows[i % W][i / W]`.
pub open spec fn column_major<T>(rows: Seq<Seq<T>>) -> Seq<T> {
    Seq::new(
        rows.len() * min_row_len(rows),
        |i: int| rows[i % rows.len() as int][i / rows.len() as int],
    )
}

/// The minimum row length is no longer than any single row.
pub proof fn lemma_min_row_len_le<T>(rows: Seq<Seq<T>>, k: int)
    requires
        0 <= k < rows.len(),
    ensures
        min_row_len(rows) <= rows[k].len(),
    decreases rows.len(),
{
    if rows.len() > 1 && k < rows.len() - 1 {
        lemma_min_row_len_le(rows.drop_last(), k);
    }
}

/// The output length is exactly the row count times the effective
/// column count.
pub proof fn lemma_column_major_len<T>(rows: Seq<Seq<T>>)
    ensures
        column_major(rows).len() == rows.len() * min_row_len(rows),
{
}

/// Every output element is drawn from `rows[i % W][i / W]`.
pub proof fn lemma_column_major_index<T>(rows: Seq<Seq<T>>, i: int)
    requires
        rows.len() > 0,
        0 <= i < column_major(rows).len(),
    ensures
        column_major(rows)[i] == rows[i % rows.len() as int][i / rows.len() as int],
{
}

/// A matrix with no rows flattens to the empty sequence.
pub proof fn lemma_empty_matrix<T>(rows: Seq<Seq<T>>)
    requires
        rows.len() == 0,
    ensures
        column_major(rows) == Seq::<T>::empty(),
{
    assert(column_major(rows) =~= Seq::<T>::empty());
}

/// A single row of length zero forces an empty output, regardless of
/// the other rows' lengths.
pub proof fn lemma_empty_row<T>(rows: Seq<Seq<T>>, k: int)
    requires
        0 <= k < rows.len(),
        rows[k].len() == 0,
    ensures
        column_major(rows) == Seq::<T>::empty(),
{
    lemma_min_row_len_le(rows, k);
    assert(rows.len() * min_row_len(rows) == 0) by (nonlinear_arith)
        requires min_row_len(rows) == 0;
    assert(column_major(rows) =~= Seq::<T>::empty());
}

/// In a rectangular matrix the effective column count is the shared
/// row length.
pub proof fn lemma_min_row_len_rectangular<T>(rows: Seq<Seq<T>>, l: nat)
    requires
        rows.len() > 0,
        forall|k: int| 0 <= k < rows.len() ==> #[trigger] rows[k].len() == l,
    ensures
        min_row_len(rows) == l,
    decreases rows.len(),
{
    if rows.len() > 1 {
        assert(forall|k: int|
            0 <= k < rows.drop_last().len() ==> #[trigger] rows.drop_last()[k].len() == l);
        lemma_min_row_len_rectangular(rows.drop_last(), l);
    }
}

/// The transpose of a matrix, read as `cols` columns: column `c` holds
/// element `c` of every row in row order.
pub open spec fn transpose<T>(rows: Seq<Seq<T>>, cols: nat) -> Seq<Seq<T>> {
    Seq::new(cols, |c: int| Seq::new(rows.len(), |r: int| rows[r][c]))
}

/// The first `cols` columns of a matrix in column-major order.
spec fn column_major_upto<T>(rows: Seq<Seq<T>>, cols: nat) -> Seq<T> {
    Seq::new(
        rows.len() * cols,
        |i: int| rows[i % rows.len() as int][i / rows.len() as int],
    )
}

proof fn lemma_transpose_flatten_upto<T>(rows: Seq<Seq<T>>, cols: nat)
    requires
        forall|k: int| 0 <= k < rows.len() ==> #[trigger] rows[k].len() >= cols,
    ensures
        transpose(rows, cols).flatten_alt() == column_major_upto(rows, cols),
    decreases cols,
{
    let w = rows.len() as int;
    let t = transpose(rows, cols);
    if cols == 0 {
        assert(rows.len() * cols == 0) by (nonlinear_arith)
            requires cols == 0;
        assert(t.flatten_alt() =~= column_major_upto(rows, cols));
    } else {
        let prev = (cols - 1) as nat;
        lemma_transpose_flatten_upto(rows, prev);
        assert(t.drop_last() =~~= transpose(rows, prev));
        let glued = column_major_upto(rows, prev).add(t.last());
        assert(t.flatten_alt() == glued);
        assert(w * prev + w == w * cols) by (nonlinear_arith)
            requires prev == cols - 1;
        assert forall|r: int|
            0 <= r < w implies column_major_upto(rows, cols)[w * prev + r] == #[trigger] t.last()[
            r
        ] by {
            vstd::arithmetic::div_mod::lemma_fundamental_div_mod_converse(
                w * prev + r,
                w,
                prev as int,
                r,
            );
        }
        assert(glued =~= column_major_upto(rows, cols));
    }
}

/// Column-major flattening of a rectangular matrix agrees with the
/// straightforward reference: transpose, then concatenate the columns.
pub proof fn lemma_column_major_is_transpose_concat<T>(rows: Seq<Seq<T>>, cols: nat)
    requires
        forall|k: int| 0 <= k < rows.len() ==> #[trigger] rows[k].len() == cols,
    ensures
        column_major(rows) == transpose(rows, cols).flatten(),
{
    lemma_transpose_flatten_upto(rows, cols);
    transpose(rows, cols).lemma_flatten_and_flatten_alt_are_equivalent();
    if rows.len() == 0 {
        lemma_empty_matrix(rows);
        assert(column_major_upto(rows, cols) =~= Seq::<T>::empty());
    } else {
        lemma_min_row_len_rectangular(rows, cols);
        assert(column_major(rows) =~= column_major_upto(rows, cols));
    }
}

/// Flattening a two-dimensional collection into one dimension,
/// column-major, shortest row first.
pub trait Serialize: Sized {
    type Output;

    /// What the flattened output is, in terms of the input's view.
    spec fn serialized(self, out: Self::Output) -> bool;

    /// Serializes a two-dimensional structure, like `Vec<Vec<_>>`,
    /// into a flat column-major vector.
    fn serialize(self) -> (out: Self::Output)
        ensures
            self.serialized(out),
    ;
}

/// Flattens rows given as plain slices into a single column-major
/// vector; the shared core that every input shape reduces to.
pub fn serialize_slices<T: Copy>(matrix: &[&[T]]) -> (out: Vec<T>)
    ensures
        out@ == column_major(matrix@.map_values(|r: &[T]| r@)),
{
    let ghost rows = matrix@.map_values(|r: &[T]| r@);
    let width = matrix.len();
    let mut len: usize = 0;
    if width > 0 {
        len = matrix[0].len();
        assert(rows.take(1).drop_last() =~= Seq::<Seq<T>>::empty());
        assert(len == min_row_len(rows.take(1)));
        let mut i: usize = 1;
        while i < width
            invariant
                1 <= i <= width,
                width == rows.len(),
                rows == matrix@.map_values(|r: &[T]| r@),
                len == min_row_len(rows.take(i as int)),
            decreases width - i,
        {
            let row_len = matrix[i].len();
            proof {
                assert(rows.take(i + 1).drop_last() =~= rows.take(i as int));
                assert(rows.take(i + 1).last() == rows[i as int]);
            }
            if row_len < len {
                len = row_len;
            }
            i = i + 1;
        }
        assert(rows.take(width as int) =~= rows);
    }
    let mut out: Vec<T> = Vec::new();
    if width > 0 {
        let mut col: usize = 0;
        while col < len
            invariant
                0 < width == rows.len(),
                col <= len,
                len == min_row_len(rows),
                rows == matrix@.map_values(|r: &[T]| r@),
                out@.len() == col * width,
                forall|i: int|
                    0 <= i < out@.len() ==> out@[i] == rows[i % width as int][i / width as int],
            decreases len - col,
        {
            let mut row: usize = 0;
            while row < width
                invariant
                    0 < width == rows.len(),
                    col < len,
                    len == min_row_len(rows),
                    rows == matrix@.map_values(|r: &[T]| r@),
                    row <= width,
                    out@.len() == col * width + row,
                    forall|i: int|
                        0 <= i < out@.len() ==> out@[i] == rows[i % width as int][i
                            / width as int],
                decreases width - row,
            {
                proof {
                    lemma_min_row_len_le(rows, row as int);
                }
                let x = matrix[row][col];
                out.push(x);
                proof {
                    vstd::arithmetic::div_mod::lemma_fundamental_div_mod_converse(
                        col * width + row,
                        width as int,
                        col as int,
                        row as int,
                    );
                }
                row = row + 1;
            }
            proof {
                assert((col + 1) * width == col * width + width) by (nonlinear_arith);
            }
            col = col + 1;
        }
        proof {
            assert(len * width == width * len) by (nonlinear_arith);
            assert(out@ =~= column_major(rows));
        }
    } else {
        assert(out@ =~= column_major(rows));
    }
    out
}

impl<'a, T: Copy> Serialize for &'a [&'a [T]] {
    type Output = Vec<T>;

    open spec fn serialized(self, out: Vec<T>) -> bool {
        out@ == column_major(self@.map_values(|r: &[T]| r@))
    }

    fn serialize(self) -> (out: Vec<T>) {
        serialize_slices(self)
    }
}

impl<'a, T: Copy> Serialize for &'a [Vec<T>] {
    type Output = Vec<T>;

    open spec fn serialized(self, out: Vec<T>) -> bool {
        out@ == column_major(self@.map_values(|r: Vec<T>| r@))
    }

    fn serialize(self) -> (out: Vec<T>) {
        let mut refs: Vec<&[T]> = Vec::new();
        let mut i: usize = 0;
        while i < self.len()
            invariant
                i <= self@.len(),
                refs@.len() == i,
                forall|j: int| 0 <= j < i ==> refs@[j]@ == self@[j]@,
            decreases self@.len() - i,
        {
            refs.push(self[i].as_slice());
            i = i + 1;
        }
        let out = refs.as_slice().serialize();
        proof {
            assert(refs@.map_values(|r: &[T]| r@) =~~= self@.map_values(|r: Vec<T>| r@));
        }
        out
    }
}

impl<'a, T: Copy, const W: usize> Serialize for &'a [Vec<T>; W] {
    type Output = Vec<T>;

    open spec fn serialized(self, out: Vec<T>) -> bool {
        out@ == column_major(self@.map_values(|r: Vec<T>| r@))
    }

    fn serialize(self) -> (out: Vec<T>) {
        let rows = self.as_slice();
        let out = rows.serialize();
        proof {
            assert(rows@.map_values(|r: Vec<T>| r@) =~~= self@.map_values(
                |r: Vec<T>| r@,
            ));
        }
        out
    }
}

impl<'a, T: Copy, const W: usize> Serialize for &'a [&'a [T]; W] {
    type Output = Vec<T>;

    open spec fn serialized(self, out: Vec<T>) -> bool {
        out@ == column_major(self@.map_values(|r: &[T]| r@))
    }

    fn serialize(self) -> (out: Vec<T>) {
        let rows = self.as_slice();
        let out = rows.serialize();
        proof {
            assert(rows@.map_values(|r: &[T]| r@) =~~= self@.map_values(
                |r: &[T]| r@,
            ));
        }
        out
    }
}

impl<'a, T: Copy, const L: usize> Serialize for &'a [[T; L]] {
    type Output = Vec<T>;

    open spec fn serialized(self, out: Vec<T>) -> bool {
        out@ == column_major(self@.map_values(|r: [T; L]| r@))
    }

    fn serialize(self) -> (out: Vec<T>) {
        let mut refs: Vec<&[T]> = Vec::new();
        let mut i: usize = 0;
        while i < self.len()
            invariant
                i <= self@.len(),
                refs@.len() == i,
                forall|j: int| 0 <= j < i ==> refs@[j]@ == self@[j]@,
            decreases self@.len() - i,
        {
            refs.push(self[i].as_slice());
            i = i + 1;
        }
        let out = refs.as_slice().serialize();
        proof {
            assert(refs@.map_values(|r: &[T]| r@) =~~= self@.map_values(|r: [T; L]| r@));
        }
        out
    }
}

impl<'a, T: Copy, const L: usize, const W: usize> Serialize for &'a [[T; L]; W] {
    type Output = Vec<T>;

    open spec fn serialized(self, out: Vec<T>) -> bool {
        out@ == column_major(self@.map_values(|r: [T; L]| r@))
    }

    fn serialize(self) -> (out: Vec<T>) {
        let rows = self.as_slice();
        let out = rows.serialize();
        proof {
            assert(rows@.map_values(|r: [T; L]| r@) =~~= self@.map_values(
                |r: [T; L]| r@,
            ));
        }
        out
    }
}

} // verus!

