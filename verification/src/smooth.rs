//! Separable smoothing of a volume: one weighted average along each axis.
//!
//! At every place the kernel is laid along the axis with its centre on the
//! place. The taps that fall inside the volume contribute to a weighted sum
//! and to the total of their weights; the output is the sum divided by that
//! total, so that the borders are not darkened. Taps are taken in the order
//! of the kernel, and the three passes run along X, then Y, then Z, each on the
//! finished output of the one before.
//!
//! Arithmetic on samples is the caller's: `weigh(sum, sample, weight)` adds
//! one weighted sample to a sum, `plus(total, weight)` adds one weight to a
//! total, `over(sum, total)` forms the average.

use vstd::prelude::*;
use vstd::arithmetic::div_mod::lemma_fundamental_div_mod_converse;
use crate::ops::{
    is_function1,
    is_function2,
    is_function3,
    lemma_result1,
    lemma_result2,
    lemma_result3,
    result1,
    result2,
    result3,
    returns1,
    returns2,
    returns3,
};
use crate::volume::{grid_offset, lemma_grid_offset, Volume};

verus! {

/// A direction of the grid.
#[derive(Debug, Clone, Copy, PartialEq, Eq)]
pub enum Axis {
    /// Along the columns.
    X,
    /// Along the rows.
    Y,
    /// Along the slices.
    Z,
}

/// Number of places along `axis`.
pub open spec fn extent_along(axis: Axis, cols: int, rows: int, slices: int) -> int {
    match axis {
        Axis::X => cols,
        Axis::Y => rows,
        Axis::Z => slices,
    }
}

/// The coordinate of the place `(x, y, z)` along `axis`.
pub open spec fn coordinate_along(axis: Axis, x: int, y: int, z: int) -> int {
    match axis {
        Axis::X => x,
        Axis::Y => y,
        Axis::Z => z,
    }
}

/// Offset of the place reached from `(x, y, z)` by setting its coordinate
/// along `axis` to `c`.
pub open spec fn offset_along(axis: Axis, x: int, y: int, z: int, c: int, cols: int, rows: int)
    -> int {
    match axis {
        Axis::X => grid_offset(c, y, z, cols, rows),
        Axis::Y => grid_offset(x, c, z, cols, rows),
        Axis::Z => grid_offset(x, y, c, cols, rows),
    }
}

/// Column of the place stored at offset `i`.
pub open spec fn column_of(i: int, cols: int) -> int {
    i % cols
}

/// Row of the place stored at offset `i`.
pub open spec fn row_of(i: int, cols: int, rows: int) -> int {
    (i / cols) % rows
}

/// Slice of the place stored at offset `i`.
pub open spec fn slice_of(i: int, cols: int, rows: int) -> int {
    i / (cols * rows)
}

/// The place stored at the offset of `(x, y, z)` is `(x, y, z)`.
pub proof fn lemma_place_of_offset(x: int, y: int, z: int, cols: int, rows: int)
    requires
        0 <= x < cols,
        0 <= y < rows,
        0 <= z,
    ensures
        column_of(grid_offset(x, y, z, cols, rows), cols) == x,
        row_of(grid_offset(x, y, z, cols, rows), cols, rows) == y,
        slice_of(grid_offset(x, y, z, cols, rows), cols, rows) == z,
{
    let i = grid_offset(x, y, z, cols, rows);
    let line = y + z * rows;
    assert(i == line * cols + x) by (nonlinear_arith)
        requires
            i == x + y * cols + z * cols * rows,
            line == y + z * rows,
    ;
    lemma_fundamental_div_mod_converse(i, cols, line, x);
    lemma_fundamental_div_mod_converse(line, rows, z, y);
    lemma_grid_offset(x, y, z, cols, rows, z + 1);
    assert(cols * rows > 0) by (nonlinear_arith)
        requires
            cols > 0,
            rows > 0,
    ;
    lemma_fundamental_div_mod_converse(i, cols * rows, z, y * cols + x);
}

/// One pass of smoothing described: the samples and the extents of the
/// volume that is read, the axis, the kernel, and the arithmetic.
pub struct Pass<T, M, A, D> {
    /// The samples that are read, in storage order.
    pub src: Seq<T>,
    pub cols: int,
    pub rows: int,
    pub slices: int,
    /// The axis along which the kernel is laid.
    pub axis: Axis,
    pub kernel: Seq<T>,
    /// The empty sum and the empty total.
    pub zero: T,
    /// Adds one weighted sample to a sum.
    pub weigh: M,
    /// Adds one weight to a total.
    pub plus: A,
    /// Divides a sum by a total.
    pub over: D,
}

impl<T, M: Fn(T, T, T) -> T, A: Fn(T, T) -> T, D: Fn(T, T) -> T> Pass<T, M, A, D> {
    /// The coordinate that tap `k` reads when the output stands at the place
    /// `(x, y, z)`: `k - kernel.len() / 2` away from the place along the axis.
    pub open spec fn tap_at(self, x: int, y: int, z: int, k: int) -> int {
        coordinate_along(self.axis, x, y, z) + k - self.kernel.len() / 2
    }

    /// Whether tap `k` falls inside the volume.
    pub open spec fn tap_inside(self, x: int, y: int, z: int, k: int) -> bool {
        0 <= self.tap_at(x, y, z, k) < extent_along(self.axis, self.cols, self.rows, self.slices)
    }

    /// The sample that tap `k` reads.
    pub open spec fn tap_sample(self, x: int, y: int, z: int, k: int) -> T {
        self.src[offset_along(self.axis, x, y, z, self.tap_at(x, y, z, k), self.cols, self.rows)]
    }

    /// The weighted sum and the total weight at the place `(x, y, z)` once
    /// the first `taken` taps of the kernel have been laid, in the order of
    /// the kernel; a tap that falls outside the volume is passed over.
    pub open spec fn weighted(self, x: int, y: int, z: int, taken: int) -> (T, T)
        decreases taken,
    {
        if taken <= 0 {
            (self.zero, self.zero)
        } else {
            let before = self.weighted(x, y, z, taken - 1);
            let k = taken - 1;
            if self.tap_inside(x, y, z, k) {
                (
                    result3(self.weigh, before.0, self.tap_sample(x, y, z, k), self.kernel[k]),
                    result2(self.plus, before.1, self.kernel[k]),
                )
            } else {
                before
            }
        }
    }

    /// Whether the results named by `weighted` for the first `taken` taps are
    /// values that `weigh` and `plus` can return, tap by tap.
    pub open spec fn weighted_realized(self, x: int, y: int, z: int, taken: int) -> bool
        decreases taken,
    {
        if taken <= 0 {
            true
        } else {
            let before = self.weighted(x, y, z, taken - 1);
            let k = taken - 1;
            &&& self.weighted_realized(x, y, z, taken - 1)
            &&& self.tap_inside(x, y, z, k) ==> {
                &&& returns3(self.weigh, before.0, self.tap_sample(x, y, z, k), self.kernel[k])
                &&& returns2(self.plus, before.1, self.kernel[k])
            }
        }
    }

    /// The smoothed sample at the place `(x, y, z)`: the weighted sum of all
    /// taps inside the volume divided by their total weight.
    pub open spec fn sample(self, x: int, y: int, z: int) -> T {
        let all = self.weighted(x, y, z, self.kernel.len() as int);
        result2(self.over, all.0, all.1)
    }

    /// Whether the results named by `sample` at the place `(x, y, z)` are
    /// values that `weigh`, `plus` and `over` can return.
    pub open spec fn realized_at(self, x: int, y: int, z: int) -> bool {
        let all = self.weighted(x, y, z, self.kernel.len() as int);
        &&& self.weighted_realized(x, y, z, self.kernel.len() as int)
        &&& returns2(self.over, all.0, all.1)
    }

    /// The samples after the pass, in storage order.
    pub open spec fn output(self) -> Seq<T> {
        Seq::new(
            self.src.len(),
            |i: int|
                self.sample(
                    column_of(i, self.cols),
                    row_of(i, self.cols, self.rows),
                    slice_of(i, self.cols, self.rows),
                ),
        )
    }

    /// Whether the results named by `output` are values that `weigh`, `plus`
    /// and `over` can return, at every place of the volume.
    pub open spec fn realized(self) -> bool {
        forall|x: int, y: int, z: int|
            0 <= x < self.cols && 0 <= y < self.rows && 0 <= z < self.slices
                ==> #[trigger] self.realized_at(x, y, z)
    }

    /// The pass along `axis` that reads the output of this pass.
    pub open spec fn followed_by(self, axis: Axis) -> Self {
        Pass {
            src: self.output(),
            cols: self.cols,
            rows: self.rows,
            slices: self.slices,
            axis,
            kernel: self.kernel,
            zero: self.zero,
            weigh: self.weigh,
            plus: self.plus,
            over: self.over,
        }
    }
}

/// The sample of the output of a pass at the offset of a place is the
/// smoothed sample at that place.
pub proof fn lemma_output_at<T, M: Fn(T, T, T) -> T, A: Fn(T, T) -> T, D: Fn(T, T) -> T>(
    pass: Pass<T, M, A, D>,
    x: int,
    y: int,
    z: int,
)
    requires
        0 <= x < pass.cols,
        0 <= y < pass.rows,
        0 <= z < pass.slices,
        pass.src.len() == pass.cols * pass.rows * pass.slices,
    ensures
        pass.output().len() == pass.src.len(),
        0 <= grid_offset(x, y, z, pass.cols, pass.rows) < pass.output().len(),
        pass.output()[grid_offset(x, y, z, pass.cols, pass.rows)] == pass.sample(x, y, z),
{
    lemma_grid_offset(x, y, z, pass.cols, pass.rows, pass.slices);
    lemma_place_of_offset(x, y, z, pass.cols, pass.rows);
}

/// The pass along `axis` that reads `volume`.
pub open spec fn pass_over<T, M: Fn(T, T, T) -> T, A: Fn(T, T) -> T, D: Fn(T, T) -> T>(
    volume: &Volume<T>,
    axis: Axis,
    kernel: Seq<T>,
    zero: T,
    weigh: M,
    plus: A,
    over: D,
) -> Pass<T, M, A, D> {
    Pass {
        src: volume@,
        cols: volume.spec_cols() as int,
        rows: volume.spec_rows() as int,
        slices: volume.spec_slices() as int,
        axis,
        kernel,
        zero,
        weigh,
        plus,
        over,
    }
}

/// Distance of tap `i` from the centre of a kernel of radius `radius`.
pub open spec fn tap_distance(i: int, radius: int) -> int {
    if i >= radius {
        i - radius
    } else {
        radius - i
    }
}

/// The raw weight of tap `i` of a kernel of radius `radius`.
pub open spec fn raw_weight<T, W: Fn(usize) -> T>(radius: int, weight_at: W, i: int) -> T {
    result1(weight_at, tap_distance(i, radius) as usize)
}

/// The total of the first `taken` raw weights of a kernel of radius `radius`,
/// added up from `zero` in the order of the taps.
pub open spec fn raw_total<T, W: Fn(usize) -> T, A: Fn(T, T) -> T>(
    radius: int,
    weight_at: W,
    zero: T,
    plus: A,
    taken: int,
) -> T
    decreases taken,
{
    if taken <= 0 {
        zero
    } else {
        result2(
            plus,
            raw_total(radius, weight_at, zero, plus, taken - 1),
            raw_weight(radius, weight_at, taken - 1),
        )
    }
}

/// Tap `i` of the kernel of radius `radius`: its raw weight divided by the
/// total of all raw weights.
pub open spec fn kernel_tap<T, W: Fn(usize) -> T, A: Fn(T, T) -> T, D: Fn(T, T) -> T>(
    radius: int,
    weight_at: W,
    zero: T,
    plus: A,
    over: D,
    i: int,
) -> T {
    result2(
        over,
        raw_weight(radius, weight_at, i),
        raw_total(radius, weight_at, zero, plus, 2 * radius + 1),
    )
}

/// Whether the results named by `raw_total` and `kernel_tap` for the first
/// `taken` taps are values that `weight_at`, `plus` and `over` can return.
pub open spec fn kernel_realized<T, W: Fn(usize) -> T, A: Fn(T, T) -> T, D: Fn(T, T) -> T>(
    radius: int,
    weight_at: W,
    zero: T,
    plus: A,
    over: D,
    taken: int,
) -> bool
    decreases taken,
{
    if taken <= 0 {
        true
    } else {
        &&& kernel_realized(radius, weight_at, zero, plus, over, taken - 1)
        &&& returns1(weight_at, tap_distance(taken - 1, radius) as usize)
        &&& returns2(
            plus,
            raw_total(radius, weight_at, zero, plus, taken - 1),
            raw_weight(radius, weight_at, taken - 1),
        )
        &&& returns2(
            over,
            raw_weight(radius, weight_at, taken - 1),
            raw_total(radius, weight_at, zero, plus, 2 * radius + 1),
        )
    }
}

/// The kernel of radius `radius`: `2 * radius + 1` taps, each the raw weight
/// of its distance from the centre divided by the total of all raw weights.
/// There is no such kernel if the number of taps does not fit the machine's
/// size type.
///
/// The kernel is symmetric about its centre: taps at the same distance are
/// equal.
pub fn normalized_kernel<T: Copy, W: Fn(usize) -> T, A: Fn(T, T) -> T, D: Fn(T, T) -> T>(
    radius: usize,
    weight_at: W,
    zero: T,
    plus: A,
    over: D,
) -> (r: Option<Vec<T>>)
    requires
        is_function1(weight_at),
        is_function2(plus),
        is_function2(over),
    ensures
        r is Some <==> 2 * radius + 1 <= usize::MAX,
        r matches Some(kernel) ==> {
            &&& kernel@.len() == 2 * radius + 1
            &&& forall|i: int|
                0 <= i < kernel@.len() ==> #[trigger] kernel@[i] == kernel_tap(
                    radius as int,
                    weight_at,
                    zero,
                    plus,
                    over,
                    i,
                )
            &&& forall|i: int|
                0 <= i < kernel@.len() ==> #[trigger] kernel@[i] == kernel@[kernel@.len() - 1 - i]
            &&& kernel_realized(radius as int, weight_at, zero, plus, over, 2 * radius + 1)
        },
{
    if radius > (usize::MAX - 1) / 2 {
        return None;
    }
    let size = 2 * radius + 1;
    let mut raw: Vec<T> = Vec::with_capacity(size);
    let mut total = zero;
    let mut i: usize = 0;
    while i < size
        invariant
            i <= size,
            size == 2 * radius + 1,
            is_function1(weight_at),
            is_function2(plus),
            raw@.len() == i,
            forall|j: int| 0 <= j < i ==> #[trigger] raw@[j] == raw_weight(radius as int, weight_at, j),
            forall|j: int|
                0 <= j < i ==> returns1(weight_at, #[trigger] tap_distance(j, radius as int) as usize),
            forall|j: int|
                0 <= j < i ==> returns2(
                    plus,
                    #[trigger] raw_total(radius as int, weight_at, zero, plus, j),
                    raw_weight(radius as int, weight_at, j),
                ),
            total == raw_total(radius as int, weight_at, zero, plus, i as int),
        decreases size - i,
    {
        let distance = if i >= radius {
            i - radius
        } else {
            radius - i
        };
        let weight = weight_at(distance);
        let next = plus(total, weight);
        proof {
            lemma_result1(weight_at, distance, weight);
            lemma_result2(plus, total, weight, next);
        }
        raw.push(weight);
        total = next;
        i = i + 1;
    }
    let mut kernel: Vec<T> = Vec::with_capacity(size);
    let mut i: usize = 0;
    while i < size
        invariant
            i <= size,
            size == 2 * radius + 1,
            is_function2(over),
            raw@.len() == size,
            forall|j: int|
                0 <= j < size ==> #[trigger] raw@[j] == raw_weight(radius as int, weight_at, j),
            total == raw_total(radius as int, weight_at, zero, plus, size as int),
            kernel@.len() == i,
            forall|j: int|
                0 <= j < i ==> #[trigger] kernel@[j] == kernel_tap(
                    radius as int,
                    weight_at,
                    zero,
                    plus,
                    over,
                    j,
                ),
            forall|j: int|
                0 <= j < i ==> returns2(
                    over,
                    #[trigger] raw_weight(radius as int, weight_at, j),
                    total,
                ),
        decreases size - i,
    {
        let tap = over(raw[i], total);
        proof {
            lemma_result2(over, raw@[i as int], total, tap);
        }
        kernel.push(tap);
        i = i + 1;
    }
    proof {
        assert forall|i: int| 0 <= i < kernel@.len() implies #[trigger] kernel@[i]
            == kernel@[kernel@.len() - 1 - i] by {
            assert(tap_distance(i, radius as int) == tap_distance(
                kernel@.len() - 1 - i,
                radius as int,
            ));
        }
        lemma_kernel_realized(radius as int, weight_at, zero, plus, over, size as int);
    }
    Some(kernel)
}

/// The results for the first `taken` taps are realized if every single one
/// is.
proof fn lemma_kernel_realized<T, W: Fn(usize) -> T, A: Fn(T, T) -> T, D: Fn(T, T) -> T>(
    radius: int,
    weight_at: W,
    zero: T,
    plus: A,
    over: D,
    taken: int,
)
    requires
        forall|j: int|
            0 <= j < taken ==> returns1(weight_at, #[trigger] tap_distance(j, radius) as usize),
        forall|j: int|
            0 <= j < taken ==> returns2(
                plus,
                #[trigger] raw_total(radius, weight_at, zero, plus, j),
                raw_weight(radius, weight_at, j),
            ),
        forall|j: int|
            0 <= j < taken ==> returns2(
                over,
                #[trigger] raw_weight(radius, weight_at, j),
                raw_total(radius, weight_at, zero, plus, 2 * radius + 1),
            ),
    ensures
        kernel_realized(radius, weight_at, zero, plus, over, taken),
    decreases taken,
{
    if taken > 0 {
        lemma_kernel_realized(radius, weight_at, zero, plus, over, taken - 1);
        let j = taken - 1;
        assert(returns1(weight_at, tap_distance(j, radius) as usize));
        assert(returns2(
            plus,
            raw_total(radius, weight_at, zero, plus, j),
            raw_weight(radius, weight_at, j),
        ));
        assert(returns2(
            over,
            raw_weight(radius, weight_at, j),
            raw_total(radius, weight_at, zero, plus, 2 * radius + 1),
        ));
    }
}

/// The coordinate that tap `k` of a kernel with centre `half` reads when the
/// output stands at `pos`, if it lies in `0..extent`. Taps that fall outside
/// the volume read nothing.
pub fn tap_coordinate(pos: usize, k: usize, half: usize, extent: usize) -> (r: Option<usize>)
    ensures
        r is Some <==> 0 <= pos + k - half < extent,
        r matches Some(c) ==> c == pos + k - half,
{
    if k >= half {
        let ahead = k - half;
        if pos < extent && ahead < extent - pos {
            Some(pos + ahead)
        } else {
            None
        }
    } else {
        let behind = half - k;
        if behind <= pos && pos - behind < extent {
            Some(pos - behind)
        } else {
            None
        }
    }
}

/// The smoothed sample of `volume` at the place `(x, y, z)` for one pass along
/// `axis`; there is none where the place lies outside the volume.
pub fn smooth_sample<T: Copy, M: Fn(T, T, T) -> T, A: Fn(T, T) -> T, D: Fn(T, T) -> T>(
    volume: &Volume<T>,
    axis: Axis,
    kernel: &Vec<T>,
    zero: T,
    weigh: &M,
    plus: &A,
    over: &D,
    x: usize,
    y: usize,
    z: usize,
) -> (r: Option<T>)
    requires
        is_function3(*weigh),
        is_function2(*plus),
        is_function2(*over),
    ensures
        r is Some <==> x < volume.spec_cols() && y < volume.spec_rows() && z < volume.spec_slices(),
        r matches Some(sample) ==> {
            let pass = pass_over(volume, axis, kernel@, zero, *weigh, *plus, *over);
            &&& sample == pass.sample(x as int, y as int, z as int)
            &&& pass.realized_at(x as int, y as int, z as int)
        },
{
    let cols = volume.cols();
    let rows = volume.rows();
    let slices = volume.slices();
    if x >= cols || y >= rows || z >= slices {
        return None;
    }
    let values = volume.values();
    let count = values.len();
    let taps = kernel.len();
    let half = taps / 2;
    let (pos, extent) = match axis {
        Axis::X => (x, cols),
        Axis::Y => (y, rows),
        Axis::Z => (z, slices),
    };
    let ghost pass = pass_over(volume, axis, kernel@, zero, *weigh, *plus, *over);
    let mut sum = zero;
    let mut weight = zero;
    let mut k: usize = 0;
    while k < taps
        invariant
            k <= taps,
            taps == kernel@.len(),
            half == taps / 2,
            is_function3(*weigh),
            is_function2(*plus),
            volume.wf(),
            values@ == volume@,
            count == values@.len(),
            cols == volume.spec_cols(),
            rows == volume.spec_rows(),
            slices == volume.spec_slices(),
            x < cols,
            y < rows,
            z < slices,
            pos == coordinate_along(axis, x as int, y as int, z as int),
            extent == extent_along(axis, cols as int, rows as int, slices as int),
            pass == pass_over(volume, axis, kernel@, zero, *weigh, *plus, *over),
            (sum, weight) == pass.weighted(x as int, y as int, z as int, k as int),
            pass.weighted_realized(x as int, y as int, z as int, k as int),
        decreases taps - k,
    {
        match tap_coordinate(pos, k, half, extent) {
            Some(c) => {
                let (sx, sy, sz) = match axis {
                    Axis::X => (c, y, z),
                    Axis::Y => (x, c, z),
                    Axis::Z => (x, y, c),
                };
                proof {
                    lemma_grid_offset(
                        sx as int,
                        sy as int,
                        sz as int,
                        cols as int,
                        rows as int,
                        slices as int,
                    );
                }
                let at = sx + sy * cols + sz * cols * rows;
                let sample = values[at];
                let tap = kernel[k];
                let next_sum = weigh(sum, sample, tap);
                let next_weight = plus(weight, tap);
                proof {
                    lemma_result3(*weigh, sum, sample, tap, next_sum);
                    lemma_result2(*plus, weight, tap, next_weight);
                }
                sum = next_sum;
                weight = next_weight;
            },
            None => {},
        }
        k = k + 1;
    }
    let r = over(sum, weight);
    proof {
        lemma_result2(*over, sum, weight, r);
    }
    Some(r)
}

/// One pass along `axis`: every sample of the result is the average, over the
/// taps inside the volume, of the samples of `volume` along `axis`.
pub fn smooth_along<T: Copy, M: Fn(T, T, T) -> T, A: Fn(T, T) -> T, D: Fn(T, T) -> T>(
    volume: &Volume<T>,
    axis: Axis,
    kernel: &Vec<T>,
    zero: T,
    weigh: &M,
    plus: &A,
    over: &D,
) -> (out: Volume<T>)
    requires
        is_function3(*weigh),
        is_function2(*plus),
        is_function2(*over),
    ensures
        out.wf(),
        out.spec_cols() == volume.spec_cols(),
        out.spec_rows() == volume.spec_rows(),
        out.spec_slices() == volume.spec_slices(),
        out@ == pass_over(volume, axis, kernel@, zero, *weigh, *plus, *over).output(),
        pass_over(volume, axis, kernel@, zero, *weigh, *plus, *over).realized(),
{
    let cols = volume.cols();
    let rows = volume.rows();
    let slices = volume.slices();
    let count = volume.values().len();
    let ghost pass = pass_over(volume, axis, kernel@, zero, *weigh, *plus, *over);
    let mut values: Vec<T> = Vec::with_capacity(count);
    let mut x: usize = 0;
    let mut y: usize = 0;
    let mut z: usize = 0;
    proof {
        assert(grid_offset(0, 0, 0, cols as int, rows as int) == 0) by (nonlinear_arith);
    }
    while z < slices
        invariant
            is_function3(*weigh),
            is_function2(*plus),
            is_function2(*over),
            volume.wf(),
            cols == volume.spec_cols(),
            rows == volume.spec_rows(),
            slices == volume.spec_slices(),
            count == volume@.len(),
            x < cols,
            y < rows,
            z <= slices,
            z == slices ==> x == 0 && y == 0,
            values@.len() == grid_offset(x as int, y as int, z as int, cols as int, rows as int),
            values@.len() <= count,
            pass == pass_over(volume, axis, kernel@, zero, *weigh, *plus, *over),
            forall|i: int| 0 <= i < values@.len() ==> values@[i] == pass.output()[i],
            forall|px: int, py: int, pz: int|
                0 <= px < cols && 0 <= py < rows && 0 <= pz < slices && grid_offset(
                    px,
                    py,
                    pz,
                    cols as int,
                    rows as int,
                ) < values@.len() ==> #[trigger] pass.realized_at(px, py, pz),
        decreases count - values@.len(),
    {
        let ghost here = values@.len() as int;
        proof {
            lemma_grid_offset(x as int, y as int, z as int, cols as int, rows as int, slices as int);
            lemma_place_of_offset(x as int, y as int, z as int, cols as int, rows as int);
        }
        let sample = smooth_sample(volume, axis, kernel, zero, weigh, plus, over, x, y, z);
        values.push(sample.unwrap());
        proof {
            assert forall|px: int, py: int, pz: int|
                0 <= px < cols && 0 <= py < rows && 0 <= pz < slices && grid_offset(
                    px,
                    py,
                    pz,
                    cols as int,
                    rows as int,
                ) < values@.len() implies #[trigger] pass.realized_at(px, py, pz) by {
                if grid_offset(px, py, pz, cols as int, rows as int) == here {
                    lemma_place_of_offset(px, py, pz, cols as int, rows as int);
                }
            }
            lemma_next_place(x as int, y as int, z as int, cols as int, rows as int);
        }
        x = x + 1;
        if x == cols {
            x = 0;
            y = y + 1;
            if y == rows {
                y = 0;
                z = z + 1;
            }
        }
    }
    proof {
        assert(grid_offset(0, 0, slices as int, cols as int, rows as int) == cols * rows * slices)
            by (nonlinear_arith);
        assert(values@ =~= pass.output());
        assert forall|px: int, py: int, pz: int|
            0 <= px < cols && 0 <= py < rows && 0 <= pz < slices implies #[trigger] pass.realized_at(
            px,
            py,
            pz,
        ) by {
            lemma_grid_offset(px, py, pz, cols as int, rows as int, slices as int);
        }
    }
    Volume::from_exact(values, cols, rows, slices)
}

/// The place after `(x, y, z)` in storage order has the next offset.
proof fn lemma_next_place(x: int, y: int, z: int, cols: int, rows: int)
    requires
        0 <= x < cols,
        0 <= y < rows,
        0 <= z,
    ensures
        x + 1 < cols ==> grid_offset(x + 1, y, z, cols, rows) == grid_offset(x, y, z, cols, rows)
            + 1,
        x + 1 == cols && y + 1 < rows ==> grid_offset(0, y + 1, z, cols, rows) == grid_offset(
            x,
            y,
            z,
            cols,
            rows,
        ) + 1,
        x + 1 == cols && y + 1 == rows ==> grid_offset(0, 0, z + 1, cols, rows) == grid_offset(
            x,
            y,
            z,
            cols,
            rows,
        ) + 1,
{
    assert((y + 1) * cols == y * cols + cols) by (nonlinear_arith);
    assert((z + 1) * cols * rows == z * cols * rows + rows * cols) by (nonlinear_arith);
    assert(0 * cols == 0) by (nonlinear_arith);
}

/// The three passes: along X, then along Y on the result, then along Z on the
/// result of that.
pub fn smooth_3d<T: Copy, M: Fn(T, T, T) -> T, A: Fn(T, T) -> T, D: Fn(T, T) -> T>(
    volume: &Volume<T>,
    kernel: &Vec<T>,
    zero: T,
    weigh: M,
    plus: A,
    over: D,
) -> (out: Volume<T>)
    requires
        is_function3(weigh),
        is_function2(plus),
        is_function2(over),
    ensures
        out.wf(),
        out.spec_cols() == volume.spec_cols(),
        out.spec_rows() == volume.spec_rows(),
        out.spec_slices() == volume.spec_slices(),
        out@.len() == volume@.len(),
        ({
            let along_x = pass_over(volume, Axis::X, kernel@, zero, weigh, plus, over);
            let along_y = along_x.followed_by(Axis::Y);
            let along_z = along_y.followed_by(Axis::Z);
            &&& out@ == along_z.output()
            &&& along_x.realized()
            &&& along_y.realized()
            &&& along_z.realized()
        }),
{
    let along_x = smooth_along(volume, Axis::X, kernel, zero, &weigh, &plus, &over);
    let along_y = smooth_along(&along_x, Axis::Y, kernel, zero, &weigh, &plus, &over);
    smooth_along(&along_y, Axis::Z, kernel, zero, &weigh, &plus, &over)
}

} // verus!
