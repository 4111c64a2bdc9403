use vstd::prelude::*;

use crate::color::YCbCr;

verus! {

/// One rasterised frame: a `rows` x `cols` grid of samples held in an ndarray
/// array. Verus sees it only through `frame_cells` and `frame_shape`.
#[verifier::external_body]
pub struct Frame {
    pub grid: ndarray::Array2<YCbCr>,
}

/// The samples of a frame, row by row.
pub uninterp spec fn frame_cells(f: Frame) -> Seq<YCbCr>;

/// The number of rows and columns of a frame.
pub uninterp spec fn frame_shape(f: Frame) -> (nat, nat);

impl Frame {
    /// Relies on ndarray's `Array::from_shape_vec`: for a shape whose sides and
    /// element count each fit in `isize` and whose element count equals the
    /// vector's length, it succeeds with an array of that shape that holds the
    /// vector in row-major order.
    #[verifier::external_body]
    pub(crate) fn from_cells(rows: usize, cols: usize, cells: Vec<YCbCr>) -> (r: Frame)
        requires
            cells@.len() == rows * cols,
            rows <= isize::MAX,
            cols <= isize::MAX,
            rows * cols <= isize::MAX,
        ensures
            frame_cells(r) == cells@,
            frame_shape(r) == (rows as nat, cols as nat),
    {
        Frame { grid: ndarray::Array2::from_shape_vec((rows, cols), cells).unwrap() }
    }
}

} // verus!
