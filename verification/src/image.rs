//! The scalar field: a dense `rows x cols` array of fixed-point samples.
//!
//! The buffer is an `ndarray::Array2<i64>` held behind trusted accessors;
//! the uninterpreted functions `image_data` (row-major contents) and
//! `image_dim` (shape) name what the array holds, and every accessor's
//! contract is stated over those names.

use ndarray_stats::QuantileExt;
use vstd::prelude::*;

verus! {

/// A two-dimensional field of fixed-point scalar samples, mutable in
/// place; its dimensions never change after construction.
#[verifier::external_body]
pub struct ScalarImage {
    data: ndarray::Array2<i64>,
}

/// The row-major contents of the field's buffer.
pub uninterp spec fn image_data(img: ScalarImage) -> Seq<i64>;

/// The field's shape as `(rows, cols)`.
pub uninterp spec fn image_dim(img: ScalarImage) -> (nat, nat);

/// The buffer holds exactly `rows * cols` samples and the sample count
/// fits an index. Established by the constructor and kept by every
/// accessor.
pub open spec fn image_wf(img: ScalarImage) -> bool {
    &&& image_data(img).len() == image_dim(img).0 * image_dim(img).1
    &&& image_dim(img).0 * image_dim(img).1 <= usize::MAX
}

impl ScalarImage {
    /// Relies on ndarray's `Array2::zeros`: a `rows x cols` array filled
    /// with zero, stored in row-major order. The size bound keeps the
    /// element count far below `isize::MAX` bytes, so the allocation
    /// cannot overflow.
    #[verifier::external_body]
    pub fn new(rows: usize, cols: usize) -> (img: ScalarImage)
        requires
            rows * cols <= usize::MAX,
            rows * cols < 0x0800_0000_0000_0000,
        ensures
            image_dim(img) == (rows as nat, cols as nat),
            image_data(img) == Seq::new((rows * cols) as nat, |k: int| 0i64),
            image_wf(img),
    {
        ScalarImage { data: ndarray::Array2::zeros((rows, cols)) }
    }

    /// Relies on ndarray's `dim`: the number of rows of the array.
    #[verifier::external_body]
    pub fn nrows(&self) -> (r: usize)
        ensures
            r as nat == image_dim(*self).0,
    {
        self.data.dim().0
    }

    /// Relies on ndarray's `dim`: the number of columns of the array.
    #[verifier::external_body]
    pub fn ncols(&self) -> (c: usize)
        ensures
            c as nat == image_dim(*self).1,
    {
        self.data.dim().1
    }

    /// Relies on ndarray's index operator: element `(i, j)` of the
    /// row-major buffer.
    #[verifier::external_body]
    pub fn get(&self, i: usize, j: usize) -> (v: i64)
        requires
            image_wf(*self),
            (i as nat) < image_dim(*self).0,
            (j as nat) < image_dim(*self).1,
        ensures
            v == image_data(*self)[i as int * image_dim(*self).1 as int + j as int],
    {
        self.data[[i, j]]
    }

    /// Relies on ndarray's mutable index operator: writes element
    /// `(i, j)` and leaves the rest of the buffer and the shape unchanged.
    #[verifier::external_body]
    pub fn set(&mut self, i: usize, j: usize, v: i64)
        requires
            image_wf(*old(self)),
            (i as nat) < image_dim(*old(self)).0,
            (j as nat) < image_dim(*old(self)).1,
        ensures
            image_dim(*final(self)) == image_dim(*old(self)),
            image_data(*final(self)) == image_data(*old(self)).update(
                i as int * image_dim(*old(self)).1 as int + j as int,
                v,
            ),
            image_wf(*final(self)),
    {
        self.data[[i, j]] = v;
    }

    /// Relies on ndarray's `fill`: overwrites every element with zero,
    /// leaving the shape unchanged.
    #[verifier::external_body]
    pub fn clear(&mut self)
        ensures
            image_dim(*final(self)) == image_dim(*old(self)),
            image_data(*final(self)) == Seq::new(
                image_data(*old(self)).len(),
                |k: int| 0i64,
            ),
            image_wf(*old(self)) ==> image_wf(*final(self)),
    {
        self.data.fill(0)
    }

    /// Relies on ndarray-stats' `QuantileExt::min`: the smallest element
    /// of a nonempty array, or `Err(EmptyInput)` on an empty one. `i64`
    /// is totally ordered, so no ordering failure can occur.
    #[verifier::external_body]
    pub fn min_sample(&self) -> (r: Option<i64>)
        ensures
            match r {
                Some(m) => image_data(*self).contains(m) && forall|k: int|
                    0 <= k < image_data(*self).len() ==> m <= image_data(*self)[k],
                None => image_data(*self).len() == 0,
            },
    {
        match self.data.min() {
            Ok(m) => Some(*m),
            Err(_) => None,
        }
    }

    /// Relies on ndarray-stats' `QuantileExt::max`: the largest element
    /// of a nonempty array, or `Err(EmptyInput)` on an empty one. `i64`
    /// is totally ordered, so no ordering failure can occur.
    #[verifier::external_body]
    pub fn max_sample(&self) -> (r: Option<i64>)
        ensures
            match r {
                Some(m) => image_data(*self).contains(m) && forall|k: int|
                    0 <= k < image_data(*self).len() ==> image_data(*self)[k] <= m,
                None => image_data(*self).len() == 0,
            },
    {
        match self.data.max() {
            Ok(m) => Some(*m),
            Err(_) => None,
        }
    }
}

} // verus!
