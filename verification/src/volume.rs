//! Slices, volumes and the assembly of a volume from a stack of slices.
//!
//! A volume is a dense grid of samples stored in one flat sequence, the
//! column fastest, then the row, then the slice:
//! `offset = x + y * cols + z * cols * rows`.

use vstd::prelude::*;
use crate::ops::accepts_all1;
use crate::text::{decimal_chars, push_decimal, push_text};

verus! {

/// Fewest slices from which a volume is assembled.
pub const MIN_SLICES_FOR_3D: usize = 5;

/// Offset of the sample at column `x`, row `y`, slice `z` in a grid with
/// `cols` columns and `rows` rows.
pub open spec fn grid_offset(x: int, y: int, z: int, cols: int, rows: int) -> int {
    x + y * cols + z * cols * rows
}

/// The offsets of a `cols` by `rows` by `slices` grid lie below its size, and
/// so does every partial sum of an offset.
pub proof fn lemma_grid_offset(x: int, y: int, z: int, cols: int, rows: int, slices: int)
    requires
        0 <= x < cols,
        0 <= y < rows,
        0 <= z < slices,
    ensures
        0 <= grid_offset(x, y, z, cols, rows) < cols * rows * slices,
        grid_offset(x, y, z, cols, rows) == z * (cols * rows) + (y * cols + x),
        0 <= y * cols <= y * cols + x < cols * rows,
        0 <= z * cols <= z * cols * rows,
        z * cols * rows == z * (cols * rows),
        z * cols * rows + cols * rows <= cols * rows * slices,
{
    assert(0 <= y * cols && y * cols + cols <= cols * rows) by (nonlinear_arith)
        requires
            0 <= y < rows,
            0 < cols,
    ;
    assert(z * cols * rows == z * (cols * rows)) by (nonlinear_arith);
    assert(0 <= z * cols <= z * cols * rows) by (nonlinear_arith)
        requires
            0 <= z,
            0 < cols,
            1 <= rows,
    ;
    assert(z * (cols * rows) + cols * rows <= cols * rows * slices) by (nonlinear_arith)
        requires
            0 <= z < slices,
            0 <= cols * rows,
    ;
}

/// One decoded slice: 8-bit grayscale intensities, row by row.
#[derive(Debug)]
pub struct Slice {
    width: usize,
    height: usize,
    pixels: Vec<u8>,
}

impl Slice {
    #[verifier::type_invariant]
    spec fn inv(self) -> bool {
        self.pixels@.len() == self.width * self.height
    }

    /// Number of columns.
    pub closed spec fn spec_width(&self) -> usize {
        self.width
    }

    /// Number of rows.
    pub closed spec fn spec_height(&self) -> usize {
        self.height
    }

    /// The intensities, row by row.
    pub closed spec fn spec_pixels(&self) -> Seq<u8> {
        self.pixels@
    }

    /// Whether the buffer holds one intensity for each place.
    pub open spec fn wf(&self) -> bool {
        self.spec_pixels().len() == self.spec_width() * self.spec_height()
    }

    /// The decoded intensity at column `x` of row `y`.
    pub open spec fn intensity(&self, x: int, y: int) -> u8 {
        self.spec_pixels()[y * self.spec_width() + x]
    }

    /// A slice of `width` columns and `height` rows over `pixels`, if the
    /// buffer holds exactly one intensity for each place.
    pub fn new(width: usize, height: usize, pixels: Vec<u8>) -> (r: Option<Slice>)
        ensures
            r is Some <==> pixels@.len() == width * height,
            r matches Some(s) ==> s.spec_width() == width && s.spec_height() == height
                && s.spec_pixels() == pixels@ && s.wf(),
    {
        let area = width.checked_mul(height);
        if area == Some(pixels.len()) {
            Some(Slice { width, height, pixels })
        } else {
            None
        }
    }

    #[verifier::when_used_as_spec(spec_width)]
    pub fn width(&self) -> (w: usize)
        ensures
            w == self.spec_width(),
    {
        self.width
    }

    #[verifier::when_used_as_spec(spec_height)]
    pub fn height(&self) -> (h: usize)
        ensures
            h == self.spec_height(),
    {
        self.height
    }

    /// The intensities, row by row.
    pub fn pixels(&self) -> (p: &Vec<u8>)
        ensures
            p@ == self.spec_pixels(),
            self.wf(),
    {
        proof {
            use_type_invariant(self);
        }
        &self.pixels
    }

    /// The intensity at column `x` of row `y`, if the place exists.
    pub fn get(&self, x: usize, y: usize) -> (r: Option<u8>)
        ensures
            r is Some <==> x < self.spec_width() && y < self.spec_height(),
            r matches Some(v) ==> v == self.intensity(x as int, y as int),
    {
        proof {
            use_type_invariant(self);
        }
        let count = self.pixels.len();
        if x < self.width && y < self.height {
            proof {
                lemma_grid_offset(
                    x as int,
                    y as int,
                    0,
                    self.width as int,
                    self.height as int,
                    1,
                );
            }
            assert(y * self.width + x < count);
            Some(self.pixels[y * self.width + x])
        } else {
            None
        }
    }
}

/// A dense grid of samples of type `T`.
#[derive(Debug)]
pub struct Volume<T> {
    values: Vec<T>,
    cols: usize,
    rows: usize,
    slices: usize,
}

impl<T> View for Volume<T> {
    type V = Seq<T>;

    /// The samples in storage order.
    closed spec fn view(&self) -> Seq<T> {
        self.values@
    }
}

impl<T> Volume<T> {
    #[verifier::type_invariant]
    spec fn inv(self) -> bool {
        &&& self.cols > 0
        &&& self.rows > 0
        &&& self.slices > 0
        &&& self.values@.len() == self.cols * self.rows * self.slices
    }

    /// Number of columns (extent along X).
    pub closed spec fn spec_cols(&self) -> usize {
        self.cols
    }

    /// Number of rows (extent along Y).
    pub closed spec fn spec_rows(&self) -> usize {
        self.rows
    }

    /// Number of slices (extent along Z).
    pub closed spec fn spec_slices(&self) -> usize {
        self.slices
    }

    /// Every extent is positive and the storage holds one sample for each
    /// place. Holds of every volume a program can hold.
    pub open spec fn wf(&self) -> bool {
        &&& self.spec_cols() > 0
        &&& self.spec_rows() > 0
        &&& self.spec_slices() > 0
        &&& self@.len() == self.spec_cols() * self.spec_rows() * self.spec_slices()
    }

    /// The sample at column `x`, row `y`, slice `z`.
    pub open spec fn voxel(&self, x: int, y: int, z: int) -> T {
        self@[grid_offset(x, y, z, self.spec_cols() as int, self.spec_rows() as int)]
    }

    /// A volume over `values`, if every extent is positive and `values` holds
    /// exactly one sample for each place.
    pub fn from_parts(values: Vec<T>, cols: usize, rows: usize, slices: usize) -> (r: Option<
        Volume<T>,
    >)
        ensures
            r is Some <==> cols > 0 && rows > 0 && slices > 0 && values@.len() == cols * rows
                * slices,
            r matches Some(v) ==> v@ == values@ && v.spec_cols() == cols && v.spec_rows() == rows
                && v.spec_slices() == slices && v.wf(),
    {
        if cols == 0 || rows == 0 || slices == 0 {
            return None;
        }
        let size = grid_size(cols, rows, slices);
        if size == Some(values.len()) {
            Some(Volume { values, cols, rows, slices })
        } else {
            None
        }
    }

    /// A volume over `values`, whose length the caller has shown to fit.
    pub(crate) fn from_exact(values: Vec<T>, cols: usize, rows: usize, slices: usize) -> (v:
        Volume<T>)
        requires
            cols > 0,
            rows > 0,
            slices > 0,
            values@.len() == cols * rows * slices,
        ensures
            v@ == values@,
            v.spec_cols() == cols,
            v.spec_rows() == rows,
            v.spec_slices() == slices,
            v.wf(),
    {
        Volume { values, cols, rows, slices }
    }

    #[verifier::when_used_as_spec(spec_cols)]
    pub fn cols(&self) -> (c: usize)
        ensures
            c == self.spec_cols(),
    {
        self.cols
    }

    #[verifier::when_used_as_spec(spec_rows)]
    pub fn rows(&self) -> (r: usize)
        ensures
            r == self.spec_rows(),
    {
        self.rows
    }

    #[verifier::when_used_as_spec(spec_slices)]
    pub fn slices(&self) -> (s: usize)
        ensures
            s == self.spec_slices(),
    {
        self.slices
    }

    /// The samples in storage order.
    pub fn values(&self) -> (v: &Vec<T>)
        ensures
            v@ == self@,
            self.wf(),
    {
        proof {
            use_type_invariant(self);
        }
        &self.values
    }

    /// Gives up the volume for its samples in storage order.
    pub fn into_values(self) -> (v: Vec<T>)
        ensures
            v@ == self@,
            self.wf(),
    {
        proof {
            use_type_invariant(&self);
        }
        self.values
    }

    /// The volume of the same extents whose sample at every place is `f` of
    /// the sample of this volume at that place.
    pub fn map<U, F: Fn(T) -> U>(&self, f: F) -> (out: Volume<U>) where T: Copy
        requires
            accepts_all1(f),
        ensures
            out.wf(),
            out.spec_cols() == self.spec_cols(),
            out.spec_rows() == self.spec_rows(),
            out.spec_slices() == self.spec_slices(),
            out@.len() == self@.len(),
            forall|i: int| 0 <= i < self@.len() ==> call_ensures(f, (self@[i],), #[trigger] out@[i]),
    {
        proof {
            use_type_invariant(self);
        }
        let count = self.values.len();
        let mut values: Vec<U> = Vec::with_capacity(count);
        let mut i: usize = 0;
        while i < count
            invariant
                i <= count,
                count == self.values@.len(),
                accepts_all1(f),
                values@.len() == i,
                forall|j: int|
                    0 <= j < i ==> call_ensures(f, (self.values@[j],), #[trigger] values@[j]),
            decreases count - i,
        {
            let sample = f(self.values[i]);
            values.push(sample);
            i = i + 1;
        }
        Volume { values, cols: self.cols, rows: self.rows, slices: self.slices }
    }

    /// Offset in storage of the sample at column `x`, row `y`, slice `z`, if
    /// the place exists.
    pub fn offset(&self, x: usize, y: usize, z: usize) -> (r: Option<usize>)
        ensures
            r is Some <==> x < self.spec_cols() && y < self.spec_rows() && z < self.spec_slices(),
            r matches Some(i) ==> i == grid_offset(
                x as int,
                y as int,
                z as int,
                self.spec_cols() as int,
                self.spec_rows() as int,
            ) && i < self@.len(),
    {
        proof {
            use_type_invariant(self);
        }
        let count = self.values.len();
        if x < self.cols && y < self.rows && z < self.slices {
            proof {
                lemma_grid_offset(
                    x as int,
                    y as int,
                    z as int,
                    self.cols as int,
                    self.rows as int,
                    self.slices as int,
                );
            }
            assert(x + y * self.cols + z * self.cols * self.rows < count);
            Some(x + y * self.cols + z * self.cols * self.rows)
        } else {
            None
        }
    }

    /// The sample at column `x`, row `y`, slice `z`, if the place exists.
    pub fn get(&self, x: usize, y: usize, z: usize) -> (r: Option<&T>)
        ensures
            r is Some <==> x < self.spec_cols() && y < self.spec_rows() && z < self.spec_slices(),
            r matches Some(v) ==> *v == self.voxel(x as int, y as int, z as int),
    {
        match self.offset(x, y, z) {
            Some(i) => Some(&self.values[i]),
            None => None,
        }
    }
}

/// Why a stack of slices was not assembled.
#[derive(Debug, Clone, Copy, PartialEq, Eq)]
pub enum AssembleError {
    /// Fewer slices than a volume needs.
    TooFewSlices { got: usize, required: usize },
    /// The canonical slice has no columns or no rows.
    InvalidDimensions { cols: usize, rows: usize },
    /// The volume would hold more samples than the machine can address.
    TooLarge { cols: usize, rows: usize, slices: usize },
    /// The slice at position `slice` is `width` by `height`, not `cols` by
    /// `rows`.
    DimensionMismatch { slice: usize, cols: usize, rows: usize, width: usize, height: usize },
    /// A slice was added to a stack that already holds the `expected` slices.
    TooManySlices { expected: usize },
}

impl AssembleError {
    /// The text of the error.
    pub open spec fn message_chars(self) -> Seq<char> {
        match self {
            AssembleError::TooFewSlices { got, required } => "Need at least "@ + decimal_chars(
                required as nat,
            ) + " slices for 3D reconstruction, got "@ + decimal_chars(got as nat),
            AssembleError::InvalidDimensions { cols, rows } => "Invalid image dimensions: "@
                + decimal_chars(cols as nat) + "x"@ + decimal_chars(rows as nat),
            AssembleError::TooLarge { cols, rows, slices } => "Volume too large: "@
                + decimal_chars(cols as nat) + "x"@ + decimal_chars(rows as nat) + "x"@
                + decimal_chars(slices as nat),
            AssembleError::DimensionMismatch { slice, cols, rows, width, height } =>
                "Inconsistent slice dimensions: expected "@ + decimal_chars(cols as nat) + "x"@
                    + decimal_chars(rows as nat) + ", got "@ + decimal_chars(width as nat) + "x"@
                    + decimal_chars(height as nat) + " in slice "@ + decimal_chars(slice as nat),
            AssembleError::TooManySlices { expected } => "Too many slices: expected "@
                + decimal_chars(expected as nat),
        }
    }

    /// The text of the error.
    pub fn message(&self) -> (text: String)
        ensures
            text@ == self.message_chars(),
    {
        let mut text = String::new();
        match *self {
            AssembleError::TooFewSlices { got, required } => {
                push_text(&mut text, "Need at least ");
                push_decimal(&mut text, required);
                push_text(&mut text, " slices for 3D reconstruction, got ");
                push_decimal(&mut text, got);
            },
            AssembleError::InvalidDimensions { cols, rows } => {
                push_text(&mut text, "Invalid image dimensions: ");
                push_decimal(&mut text, cols);
                push_text(&mut text, "x");
                push_decimal(&mut text, rows);
            },
            AssembleError::TooLarge { cols, rows, slices } => {
                push_text(&mut text, "Volume too large: ");
                push_decimal(&mut text, cols);
                push_text(&mut text, "x");
                push_decimal(&mut text, rows);
                push_text(&mut text, "x");
                push_decimal(&mut text, slices);
            },
            AssembleError::DimensionMismatch { slice, cols, rows, width, height } => {
                push_text(&mut text, "Inconsistent slice dimensions: expected ");
                push_decimal(&mut text, cols);
                push_text(&mut text, "x");
                push_decimal(&mut text, rows);
                push_text(&mut text, ", got ");
                push_decimal(&mut text, width);
                push_text(&mut text, "x");
                push_decimal(&mut text, height);
                push_text(&mut text, " in slice ");
                push_decimal(&mut text, slice);
            },
            AssembleError::TooManySlices { expected } => {
                push_text(&mut text, "Too many slices: expected ");
                push_decimal(&mut text, expected);
            },
        }
        assert(text@ =~= self.message_chars());
        text
    }
}

/// Whether `slice` has `cols` columns and `rows` rows.
pub open spec fn fits(slice: Slice, cols: usize, rows: usize) -> bool {
    slice.spec_width() == cols && slice.spec_height() == rows
}

/// Why a volume of `count` slices of `cols` by `rows` cannot be made, whatever
/// the slices hold: too few slices, else an extent of zero, else a size
/// beyond the machine's size type; or none.
pub open spec fn extent_refusal(cols: usize, rows: usize, count: usize) -> Option<AssembleError> {
    if count < MIN_SLICES_FOR_3D {
        Some(AssembleError::TooFewSlices { got: count, required: MIN_SLICES_FOR_3D })
    } else if cols == 0 || rows == 0 {
        Some(AssembleError::InvalidDimensions { cols, rows })
    } else if cols * rows * count > usize::MAX {
        Some(AssembleError::TooLarge { cols, rows, slices: count })
    } else {
        None
    }
}

/// What `assemble` returns on `slices` with the canonical extents `cols` and
/// `rows`, as far as the error goes: the first reason to refuse them, in the
/// order of the variants, or none.
pub open spec fn assemble_refusal(cols: usize, rows: usize, slices: Seq<Slice>) -> Option<
    AssembleError,
> {
    if extent_refusal(cols, rows, slices.len() as usize) is Some {
        extent_refusal(cols, rows, slices.len() as usize)
    } else if exists|i: int| 0 <= i < slices.len() && !fits(#[trigger] slices[i], cols, rows) {
        let first = choose|i: int|
            0 <= i < slices.len() && !fits(#[trigger] slices[i], cols, rows) && forall|j: int|
                0 <= j < i ==> fits(#[trigger] slices[j], cols, rows);
        Some(
            AssembleError::DimensionMismatch {
                slice: first as usize,
                cols,
                rows,
                width: slices[first].spec_width(),
                height: slices[first].spec_height(),
            },
        )
    } else {
        None
    }
}

/// Accepts a number of slices from which a volume can be assembled.
pub fn check_slice_count(count: usize) -> (r: Result<(), AssembleError>)
    ensures
        match r {
            Ok(_) => count >= MIN_SLICES_FOR_3D,
            Err(e) => count < MIN_SLICES_FOR_3D && e == (AssembleError::TooFewSlices {
                got: count,
                required: MIN_SLICES_FOR_3D,
            }),
        },
{
    if count < MIN_SLICES_FOR_3D {
        Err(AssembleError::TooFewSlices { got: count, required: MIN_SLICES_FOR_3D })
    } else {
        Ok(())
    }
}

/// Packs `slices`, in their order, into one volume of `cols` columns and
/// `rows` rows.
///
/// The stack is refused if it holds fewer than `MIN_SLICES_FOR_3D` slices, if
/// `cols` or `rows` is zero, if the volume would not fit the machine's size
/// type, or if a slice is not `cols` by `rows`; the error then names the first
/// such slice. Otherwise the sample at column `x`, row `y`, slice `z` of the
/// volume is the intensity of slice `z` at column `x` of row `y`.
pub fn assemble(cols: usize, rows: usize, slices: &Vec<Slice>) -> (r: Result<
    Volume<u8>,
    AssembleError,
>)
    ensures
        match r {
            Ok(v) => {
                &&& assemble_refusal(cols, rows, slices@) is None
                &&& v.wf()
                &&& v.spec_cols() == cols
                &&& v.spec_rows() == rows
                &&& v.spec_slices() == slices@.len()
                &&& forall|x: int, y: int, z: int|
                    0 <= x < cols && 0 <= y < rows && 0 <= z < slices@.len() ==> #[trigger] v.voxel(
                        x,
                        y,
                        z,
                    ) == slices@[z].intensity(x, y)
            },
            Err(e) => assemble_refusal(cols, rows, slices@) == Some(e),
        },
{
    let count = slices.len();
    if count < MIN_SLICES_FOR_3D {
        return Err(AssembleError::TooFewSlices { got: count, required: MIN_SLICES_FOR_3D });
    }
    if cols == 0 || rows == 0 {
        return Err(AssembleError::InvalidDimensions { cols, rows });
    }
    let total = match grid_size(cols, rows, count) {
        Some(total) => total,
        None => {
            return Err(AssembleError::TooLarge { cols, rows, slices: count });
        },
    };
    assert(cols * rows <= cols * rows * count) by (nonlinear_arith)
        requires
            count >= 1,
            cols >= 0,
            rows >= 0,
    ;
    let area = cols * rows;
    let mut values: Vec<u8> = Vec::with_capacity(total);
    let mut z: usize = 0;
    while z < count
        invariant
            z <= count,
            count == slices@.len(),
            count >= MIN_SLICES_FOR_3D,
            cols > 0,
            rows > 0,
            area == cols * rows,
            total == cols * rows * count,
            values@.len() == z * area,
            forall|k: int| 0 <= k < z ==> fits(#[trigger] slices@[k], cols, rows),
            forall|k: int, j: int|
                0 <= k < z && 0 <= j < area ==> values@[k * area + j]
                    == #[trigger] slices@[k].spec_pixels()[j],
        decreases count - z,
    {
        let slice = &slices[z];
        if slice.width() != cols || slice.height() != rows {
            proof {
                lemma_first_mismatch(cols, rows, slices@, z as int);
            }
            return Err(
                AssembleError::DimensionMismatch {
                    slice: z,
                    cols,
                    rows,
                    width: slice.width(),
                    height: slice.height(),
                },
            );
        }
        let pixels = slice.pixels();
        let ghost before = values@;
        let mut j: usize = 0;
        while j < area
            invariant
                j <= area,
                z < count,
                pixels@.len() == area,
                pixels@ == slices@[z as int].spec_pixels(),
                values@.len() == z * area + j,
                before.len() == z * area,
                forall|i: int| 0 <= i < before.len() ==> values@[i] == before[i],
                forall|i: int| 0 <= i < j ==> values@[z * area + i] == pixels@[i],
            decreases area - j,
        {
            values.push(pixels[j]);
            j = j + 1;
        }
        proof {
            assert((z + 1) * area == z * area + area) by (nonlinear_arith);
            assert forall|k: int, i: int| 0 <= k < z + 1 && 0 <= i < area implies values@[k * area
                + i] == #[trigger] slices@[k].spec_pixels()[i] by {
                if k < z {
                    assert(k * area + area <= z * area) by (nonlinear_arith)
                        requires
                            0 <= k < z,
                            0 <= area,
                    ;
                    assert(0 <= k * area) by (nonlinear_arith)
                        requires
                            0 <= k,
                            0 <= area,
                    ;
                    assert(values@[k * area + i] == before[k * area + i]);
                }
            }
        }
        z = z + 1;
    }
    proof {
        assert(z == count);
        assert(count * area == cols * rows * count) by (nonlinear_arith)
            requires
                area == cols * rows,
        ;
    }
    let volume = Volume { values, cols, rows, slices: count };
    proof {
        assert forall|x: int, y: int, z: int|
            0 <= x < cols && 0 <= y < rows && 0 <= z < slices@.len() implies #[trigger] volume.voxel(
            x,
            y,
            z,
        ) == slices@[z].intensity(x, y) by {
            lemma_grid_offset(x, y, z, cols as int, rows as int, count as int);
            assert(fits(slices@[z], cols, rows));
            assert(volume@[z * area + (y * cols + x)] == slices@[z].spec_pixels()[y * cols + x]);
        }
    }
    Ok(volume)
}

/// If the slice at `at` does not fit and every slice before it does, the
/// refusal names the slice at `at`.
proof fn lemma_first_mismatch(cols: usize, rows: usize, slices: Seq<Slice>, at: int)
    requires
        slices.len() >= MIN_SLICES_FOR_3D,
        slices.len() <= usize::MAX,
        cols > 0,
        rows > 0,
        cols * rows * slices.len() <= usize::MAX,
        0 <= at < slices.len(),
        !fits(slices[at], cols, rows),
        forall|j: int| 0 <= j < at ==> fits(#[trigger] slices[j], cols, rows),
    ensures
        assemble_refusal(cols, rows, slices) == Some(
            AssembleError::DimensionMismatch {
                slice: at as usize,
                cols,
                rows,
                width: slices[at].spec_width(),
                height: slices[at].spec_height(),
            },
        ),
{
    let first = choose|i: int|
        0 <= i < slices.len() && !fits(#[trigger] slices[i], cols, rows) && forall|j: int|
            0 <= j < i ==> fits(#[trigger] slices[j], cols, rows);
    assert(first == at) by {
        if first < at {
            assert(fits(slices[first], cols, rows));
        }
        if at < first {
            assert(fits(slices[at], cols, rows));
        }
    }
}

/// A volume in the making: the slices are added one at a time, in stacking
/// order, and each is checked and packed as it comes.
#[derive(Debug)]
pub struct VolumeBuilder {
    cols: usize,
    rows: usize,
    expected: usize,
    loaded: usize,
    values: Vec<u8>,
}

impl View for VolumeBuilder {
    type V = Seq<u8>;

    /// The samples packed so far, in storage order.
    closed spec fn view(&self) -> Seq<u8> {
        self.values@
    }
}

impl VolumeBuilder {
    #[verifier::type_invariant]
    spec fn inv(self) -> bool {
        &&& self.cols > 0
        &&& self.rows > 0
        &&& self.expected >= MIN_SLICES_FOR_3D
        &&& self.loaded <= self.expected
        &&& self.cols * self.rows * self.expected <= usize::MAX
        &&& self.values@.len() == self.cols * self.rows * self.loaded
    }

    /// Number of columns of every slice.
    pub closed spec fn spec_cols(&self) -> usize {
        self.cols
    }

    /// Number of rows of every slice.
    pub closed spec fn spec_rows(&self) -> usize {
        self.rows
    }

    /// Number of slices of the finished volume.
    pub closed spec fn spec_expected(&self) -> usize {
        self.expected
    }

    /// Number of slices packed so far.
    pub closed spec fn spec_loaded(&self) -> usize {
        self.loaded
    }

    /// The extents are those of a volume that can be made, and the samples
    /// packed so far are those of the slices packed so far. Holds of every
    /// builder a program can hold.
    pub open spec fn wf(&self) -> bool {
        &&& extent_refusal(self.spec_cols(), self.spec_rows(), self.spec_expected()) is None
        &&& self.spec_loaded() <= self.spec_expected()
        &&& self@.len() == self.spec_cols() * self.spec_rows() * self.spec_loaded()
    }

    /// Begins a volume of `expected` slices of `cols` by `rows`, if such a
    /// volume can be made. Nothing is packed yet.
    pub fn new(cols: usize, rows: usize, expected: usize) -> (r: Result<
        VolumeBuilder,
        AssembleError,
    >)
        ensures
            match r {
                Ok(builder) => {
                    &&& extent_refusal(cols, rows, expected) is None
                    &&& builder.wf()
                    &&& builder.spec_cols() == cols
                    &&& builder.spec_rows() == rows
                    &&& builder.spec_expected() == expected
                    &&& builder.spec_loaded() == 0
                    &&& builder@ == Seq::<u8>::empty()
                },
                Err(e) => extent_refusal(cols, rows, expected) == Some(e),
            },
    {
        if expected < MIN_SLICES_FOR_3D {
            return Err(AssembleError::TooFewSlices { got: expected, required: MIN_SLICES_FOR_3D });
        }
        if cols == 0 || rows == 0 {
            return Err(AssembleError::InvalidDimensions { cols, rows });
        }
        let total = match grid_size(cols, rows, expected) {
            Some(total) => total,
            None => {
                return Err(AssembleError::TooLarge { cols, rows, slices: expected });
            },
        };
        assert(cols * rows * 0 == 0) by (nonlinear_arith);
        Ok(VolumeBuilder { cols, rows, expected, loaded: 0, values: Vec::with_capacity(total) })
    }

    #[verifier::when_used_as_spec(spec_loaded)]
    pub fn loaded(&self) -> (n: usize)
        ensures
            n == self.spec_loaded(),
    {
        self.loaded
    }

    #[verifier::when_used_as_spec(spec_expected)]
    pub fn expected(&self) -> (n: usize)
        ensures
            n == self.spec_expected(),
    {
        self.expected
    }

    /// Packs one more slice behind those packed so far.
    ///
    /// A slice that is not of the builder's extents is refused, and the error
    /// names its position in the stack; so is a slice beyond the expected
    /// number. A refused slice leaves the builder as it was.
    pub fn push(&mut self, slice: &Slice) -> (r: Result<(), AssembleError>)
        ensures
            final(self).spec_cols() == old(self).spec_cols(),
            final(self).spec_rows() == old(self).spec_rows(),
            final(self).spec_expected() == old(self).spec_expected(),
            final(self).wf(),
            match r {
                Ok(_) => {
                    &&& old(self).spec_loaded() < old(self).spec_expected()
                    &&& fits(*slice, old(self).spec_cols(), old(self).spec_rows())
                    &&& final(self).spec_loaded() == old(self).spec_loaded() + 1
                    &&& final(self)@ == old(self)@ + slice.spec_pixels()
                },
                Err(e) => {
                    &&& final(self).spec_loaded() == old(self).spec_loaded()
                    &&& final(self)@ == old(self)@
                    &&& e == if old(self).spec_loaded() >= old(self).spec_expected() {
                        AssembleError::TooManySlices { expected: old(self).spec_expected() }
                    } else {
                        AssembleError::DimensionMismatch {
                            slice: old(self).spec_loaded(),
                            cols: old(self).spec_cols(),
                            rows: old(self).spec_rows(),
                            width: slice.spec_width(),
                            height: slice.spec_height(),
                        }
                    }
                    &&& old(self).spec_loaded() < old(self).spec_expected() ==> !fits(
                        *slice,
                        old(self).spec_cols(),
                        old(self).spec_rows(),
                    )
                },
            },
    {
        proof {
            use_type_invariant(&*self);
        }
        if self.loaded >= self.expected {
            return Err(AssembleError::TooManySlices { expected: self.expected });
        }
        if slice.width() != self.cols || slice.height() != self.rows {
            return Err(
                AssembleError::DimensionMismatch {
                    slice: self.loaded,
                    cols: self.cols,
                    rows: self.rows,
                    width: slice.width(),
                    height: slice.height(),
                },
            );
        }
        let pixels = slice.pixels();
        let area = pixels.len();
        let ghost before = self.values@;
        proof {
            assert(self.cols * self.rows * 0 == 0) by (nonlinear_arith);
            assert(area == self.cols * self.rows);
            assert(self.cols * self.rows * (self.loaded + 1) == self.cols * self.rows * self.loaded
                + area) by (nonlinear_arith)
                requires
                    area == self.cols * self.rows,
            ;
            assert(self.cols * self.rows * (self.loaded + 1) <= self.cols * self.rows
                * self.expected) by (nonlinear_arith)
                requires
                    self.loaded + 1 <= self.expected,
                    0 <= self.cols * self.rows,
            ;
        }
        let mut taken = VolumeBuilder {
            cols: self.cols,
            rows: self.rows,
            expected: self.expected,
            loaded: 0,
            values: Vec::new(),
        };
        std::mem::swap(self, &mut taken);
        let mut values = taken.values;
        let mut j: usize = 0;
        while j < area
            invariant
                j <= area,
                area == pixels@.len(),
                values@.len() == before.len() + j,
                values@ == before + pixels@.subrange(0, j as int),
            decreases area - j,
        {
            values.push(pixels[j]);
            j = j + 1;
            assert(values@ =~= before + pixels@.subrange(0, j as int));
        }
        assert(pixels@.subrange(0, area as int) =~= pixels@);
        *self = VolumeBuilder {
            cols: taken.cols,
            rows: taken.rows,
            expected: taken.expected,
            loaded: taken.loaded + 1,
            values,
        };
        Ok(())
    }

    /// The finished volume, once all expected slices are packed: its samples
    /// are those packed, in their order.
    pub fn finish(self) -> (r: Result<Volume<u8>, AssembleError>)
        ensures
            match r {
                Ok(volume) => {
                    &&& self.spec_loaded() == self.spec_expected()
                    &&& volume.wf()
                    &&& volume@ == self@
                    &&& volume.spec_cols() == self.spec_cols()
                    &&& volume.spec_rows() == self.spec_rows()
                    &&& volume.spec_slices() == self.spec_expected()
                },
                Err(e) => self.spec_loaded() < self.spec_expected() && e == (
                AssembleError::TooFewSlices {
                    got: self.spec_loaded(),
                    required: self.spec_expected(),
                }),
            },
    {
        proof {
            use_type_invariant(&self);
        }
        if self.loaded < self.expected {
            return Err(AssembleError::TooFewSlices { got: self.loaded, required: self.expected });
        }
        Ok(Volume { values: self.values, cols: self.cols, rows: self.rows, slices: self.expected })
    }
}

/// Where the samples of a volume from slice `z` on are `pixels`, row by row,
/// the sample at column `x`, row `y`, slice `z` is the one of `pixels` at
/// column `x` of row `y`.
pub proof fn lemma_stacked_voxel(
    values: Seq<u8>,
    pixels: Seq<u8>,
    cols: int,
    rows: int,
    x: int,
    y: int,
    z: int,
)
    requires
        0 <= x < cols,
        0 <= y < rows,
        0 <= z,
        pixels.len() == cols * rows,
        z * (cols * rows) + cols * rows <= values.len(),
        values.subrange(z * (cols * rows), z * (cols * rows) + cols * rows) == pixels,
    ensures
        values[grid_offset(x, y, z, cols, rows)] == pixels[y * cols + x],
{
    lemma_grid_offset(x, y, z, cols, rows, z + 1);
    let base = z * (cols * rows);
    assert(values.subrange(base, base + cols * rows)[y * cols + x] == values[base + (y * cols
        + x)]);
}

/// `cols * rows * slices`, if it fits the machine's size type.
pub fn grid_size(cols: usize, rows: usize, slices: usize) -> (r: Option<usize>)
    ensures
        r is Some <==> cols * rows * slices <= usize::MAX,
        r matches Some(n) ==> n == cols * rows * slices,
{
    if cols == 0 || rows == 0 || slices == 0 {
        assert(cols * rows * slices == 0) by (nonlinear_arith)
            requires
                cols == 0 || rows == 0 || slices == 0,
        ;
        return Some(0);
    }
    match cols.checked_mul(rows) {
        Some(area) => {
            match area.checked_mul(slices) {
                Some(n) => Some(n),
                None => None,
            }
        },
        None => {
            assert(cols * rows * slices >= cols * rows) by (nonlinear_arith)
                requires
                    slices >= 1,
                    cols >= 0,
                    rows >= 0,
            ;
            None
        },
    }
}

} // verus!
