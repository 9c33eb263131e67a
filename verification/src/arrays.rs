use vstd::prelude::*;

verus! {

/// A one-dimensional `i64` array backed by `ndarray`. The storage is opaque
/// here; it is read and written only through the wrappers below, whose
/// contracts speak of `arr1_contents`.
#[verifier::external_body]
pub struct SampleArray {
    inner: ndarray::Array1<i64>,
}

/// A two-dimensional `i64` array backed by `ndarray`, used as preallocated
/// likelihood storage; only its shape matters to this crate.
#[verifier::external_body]
pub struct LikelihoodGrid {
    inner: ndarray::Array2<i64>,
}

/// What a one-dimensional array holds, in order.
pub uninterp spec fn arr1_contents(a: SampleArray) -> Seq<i64>;

/// What a two-dimensional array holds: its rows in order, each a sequence
/// of the row's elements.
pub uninterp spec fn arr2_contents(m: LikelihoodGrid) -> Seq<Seq<i64>>;

/// The (rows, columns) shape of a two-dimensional array.
pub uninterp spec fn arr2_shape(m: LikelihoodGrid) -> (int, int);

impl SampleArray {
    /// Relies on ndarray's `Array1::zeros`: an array of `n` zero elements.
    #[verifier::external_body]
    pub fn zeros(n: usize) -> (a: SampleArray)
        ensures
            arr1_contents(a).len() == n,
            forall|i: int| 0 <= i < n ==> arr1_contents(a)[i] == 0,
    {
        SampleArray { inner: ndarray::Array1::zeros(n) }
    }

    /// Relies on ndarray's `ArrayBase::len`: the element count.
    #[verifier::external_body]
    pub fn len(&self) -> (n: usize)
        ensures
            n == arr1_contents(*self).len(),
    {
        self.inner.len()
    }

    /// Relies on ndarray's `Index` impl: the element at `i`.
    #[verifier::external_body]
    pub fn get(&self, i: usize) -> (v: i64)
        requires
            i < arr1_contents(*self).len(),
        ensures
            v == arr1_contents(*self)[i as int],
    {
        self.inner[i]
    }

    /// Relies on ndarray's `IndexMut` impl: writes the element at `i`.
    #[verifier::external_body]
    pub fn set(&mut self, i: usize, v: i64)
        requires
            i < arr1_contents(*old(self)).len(),
        ensures
            arr1_contents(*final(self)) == arr1_contents(*old(self)).update(i as int, v),
    {
        self.inner[i] = v;
    }

    /// Relies on ndarray's `Clone` impl: an independent copy with the same
    /// contents.
    #[verifier::external_body]
    pub fn duplicate(&self) -> (b: SampleArray)
        ensures
            arr1_contents(b) == arr1_contents(*self),
    {
        SampleArray { inner: self.inner.clone() }
    }

    /// The contents as a plain vector, for callers outside the crate.
    pub fn to_vec(&self) -> (v: Vec<i64>)
        ensures
            v@ == arr1_contents(*self),
    {
        let n: usize = self.len();
        let mut v: Vec<i64> = Vec::new();
        let mut i: usize = 0;
        while i < n
            invariant
                i <= n,
                n == arr1_contents(*self).len(),
                v@.len() == i,
                forall|j: int| 0 <= j < i ==> v@[j] == arr1_contents(*self)[j],
            decreases n - i,
        {
            v.push(self.get(i));
            i += 1;
        }
        proof {
            assert(v@ =~= arr1_contents(*self));
        }
        v
    }
}

impl LikelihoodGrid {
    /// Relies on ndarray's `Array2::zeros`: a rows-by-columns array of
    /// zeroes. The size bound keeps the element count, and the byte size
    /// it implies, within what `zeros` accepts without panicking (it
    /// panics once a size computation overflows `isize`).
    #[verifier::external_body]
    pub fn zeros(rows: usize, cols: usize) -> (m: LikelihoodGrid)
        requires
            rows * cols < 0x1000_0000_0000_0000,
        ensures
            arr2_shape(m) == (rows as int, cols as int),
            arr2_contents(m).len() == rows,
            forall|i: int|
                0 <= i < rows ==> (#[trigger] arr2_contents(m)[i]).len() == cols && forall|j: int|
                    0 <= j < cols ==> arr2_contents(m)[i][j] == 0,
    {
        LikelihoodGrid { inner: ndarray::Array2::zeros((rows, cols)) }
    }

    /// Relies on ndarray's `ArrayBase::nrows`: the number of rows.
    #[verifier::external_body]
    pub fn nrows(&self) -> (r: usize)
        ensures
            r == arr2_shape(*self).0,
            r == arr2_contents(*self).len(),
    {
        self.inner.nrows()
    }

    /// Relies on ndarray's `ArrayBase::ncols`: the number of columns, which
    /// every row has.
    #[verifier::external_body]
    pub fn ncols(&self) -> (c: usize)
        ensures
            c == arr2_shape(*self).1,
            forall|i: int|
                0 <= i < arr2_contents(*self).len() ==> (#[trigger] arr2_contents(*self)[i]).len()
                    == c,
    {
        self.inner.ncols()
    }

    /// Relies on ndarray's `Index` impl: the element at row `r`, column `c`.
    #[verifier::external_body]
    pub fn get(&self, r: usize, c: usize) -> (v: i64)
        requires
            r < arr2_contents(*self).len(),
            c < arr2_contents(*self)[r as int].len(),
        ensures
            v == arr2_contents(*self)[r as int][c as int],
    {
        self.inner[[r, c]]
    }

    /// Relies on ndarray's `Clone` impl: an independent copy with the same
    /// shape and contents.
    #[verifier::external_body]
    pub fn duplicate(&self) -> (n: LikelihoodGrid)
        ensures
            arr2_shape(n) == arr2_shape(*self),
            arr2_contents(n) == arr2_contents(*self),
    {
        LikelihoodGrid { inner: self.inner.clone() }
    }

    /// The contents as plain row vectors, for callers outside the crate.
    pub fn to_rows(&self) -> (v: Vec<Vec<i64>>)
        ensures
            v@.len() == arr2_contents(*self).len(),
            forall|i: int| 0 <= i < v@.len() ==> (#[trigger] v@[i])@ == arr2_contents(*self)[i],
    {
        let n: usize = self.nrows();
        let m: usize = self.ncols();
        let mut v: Vec<Vec<i64>> = Vec::new();
        let mut i: usize = 0;
        while i < n
            invariant
                i <= n,
                n == arr2_contents(*self).len(),
                forall|k: int|
                    0 <= k < n ==> (#[trigger] arr2_contents(*self)[k]).len() == m,
                v@.len() == i,
                forall|k: int| 0 <= k < i ==> (#[trigger] v@[k])@ == arr2_contents(*self)[k],
            decreases n - i,
        {
            let mut row: Vec<i64> = Vec::new();
            let mut j: usize = 0;
            while j < m
                invariant
                    j <= m,
                    i < n,
                    n == arr2_contents(*self).len(),
                    arr2_contents(*self)[i as int].len() == m,
                    row@.len() == j,
                    forall|k: int| 0 <= k < j ==> row@[k] == arr2_contents(*self)[i as int][k],
                decreases m - j,
            {
                row.push(self.get(i, j));
                j += 1;
            }
            proof {
                assert(row@ =~= arr2_contents(*self)[i as int]);
            }
            v.push(row);
            i += 1;
        }
        v
    }
}

} // verus!
