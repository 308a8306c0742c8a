//! The execution engine: what it means to run a pipeline on a picture.
//!
//! A picture is modelled by its [`Raster`]. [`step`] says what one operation
//! makes of a raster, [`run`] what a pipeline makes of it, operation by
//! operation and in order. An operation either gives the next raster, or is
//! handed to the caller because its arithmetic is floating-point, or cannot
//! be honoured and is a fault. Nothing is ever skipped but a filter whose
//! selector names no filter.

pub mod photon;

use vstd::prelude::*;
use crate::pb::filter::Filter;
use crate::pb::ops::{ops_of, Op, Spec};
use crate::pb::resize::{ResizeType, SampleFilter, SamplingFilter};

pub use photon::Photon;

verus! {

/// A picture as plain values: `width` by `height` pixels of four bytes each
/// (red, green, blue, alpha), row by row from the top.
pub struct Raster {
    pub width: nat,
    pub height: nat,
    pub pixels: Seq<u8>,
}

/// The longest side of a source that a kernel other than the
/// nearest-neighbour one resamples. `image::imageops::resize` finds the
/// centre of every output pixel in single precision (`sample.rs`, the lines
/// `let inputx = (outx as f32 + 0.5) * ratio` and `let inputy = ..`), which
/// is off by no more than the side times 2^-22: a quarter of a pixel here.
/// From half a pixel on, the one pixel left at the edge can be a whole
/// pixel from the centre; the weights then sum to zero, the sum is divided
/// by, and the conversion of what is no longer a number is unwrapped.
pub const SAMPLING_MAX_SIDE: u32 = 1048576;

/// The most that the energy of one pixel can be in
/// `imageproc::seam_carving`: the mean over the channels of a gradient
/// magnitude (`gradient_magnitude` in `gradients.rs`) of two Sobel
/// responses, each of which is at most four times 255.
pub const SEAM_MAX_ENERGY: u32 = 1442;

/// The most pixels that a seam may run through. `set_path_energy` adds the
/// energies along a seam in 32 bits; this many of [`SEAM_MAX_ENERGY`] still
/// fit.
pub const SEAM_MAX_LEN: u32 = 2978479;

/// The most pixels that a glyph is taken to be wide or high, and that its
/// place moves on from that of the glyph before it, at the size in which
/// text is drawn.
pub const GLYPH_MAX: u32 = 1024;

/// The most characters that a drawn text may have.
pub const MAX_TEXT_LEN: usize = 1048576;

/// The side of the square that a watermark is scaled to.
pub const WATERMARK_SIDE: u32 = 64;

/// Whether the pixels of a picture of this size can be walked one by one.
/// `photon_rs::iter::ImageIterator::next` multiplies width and height in 32
/// bits and steps its 32-bit counter once past the last pixel.
pub open spec fn countable(width: nat, height: nat) -> bool {
    width * height < u32::MAX
}

/// Whether a buffer with `each` bytes for every pixel of a picture of this
/// size can be made. `image::ImageBuffer::new` panics where the length
/// overflows, and no vector grows beyond `isize::MAX` bytes.
pub open spec fn addressable(each: nat, width: nat, height: nat) -> bool {
    each * (width * height) <= isize::MAX
}

impl Raster {
    /// The picture is not empty and has exactly its pixels.
    pub open spec fn wf(self) -> bool {
        &&& 1 <= self.width
        &&& 1 <= self.height
        &&& self.pixels.len() == 4 * (self.width * self.height)
    }

    /// Byte `c` of the pixel in column `x` of row `y`.
    pub open spec fn at(self, x: int, y: int, c: int) -> u8 {
        self.pixels[4 * (y * self.width + x) + c]
    }
}

/// The part of `r` from column `x1` to `x2` and from row `y1` to `y2`, the
/// upper bounds left out.
pub open spec fn cropped(r: Raster, x1: int, y1: int, x2: int, y2: int) -> Raster {
    Raster {
        width: (x2 - x1) as nat,
        height: (y2 - y1) as nat,
        pixels: Seq::new(
            (4 * ((x2 - x1) * (y2 - y1))) as nat,
            |i: int| r.at(x1 + (i / 4) % (x2 - x1), y1 + (i / 4) / (x2 - x1), i % 4),
        ),
    }
}

/// `r` with its columns in reverse order.
pub open spec fn mirrored(r: Raster) -> Raster {
    Raster {
        width: r.width,
        height: r.height,
        pixels: Seq::new(
            r.pixels.len(),
            |i: int| r.at(r.width - 1 - (i / 4) % (r.width as int), (i / 4) / (r.width as int), i % 4),
        ),
    }
}

/// `r` with its rows in reverse order.
pub open spec fn upended(r: Raster) -> Raster {
    Raster {
        width: r.width,
        height: r.height,
        pixels: Seq::new(
            r.pixels.len(),
            |i: int| r.at((i / 4) % (r.width as int), r.height - 1 - (i / 4) / (r.width as int), i % 4),
        ),
    }
}

/// A container format for the output.
#[derive(Clone, Copy, Debug, PartialEq, Eq, Structural)]
pub enum OutputFormat {
    Png,
    /// JPEG at the given quality, from 1 to 100.
    Jpeg(u8),
    Gif,
    Bmp,
    /// An icon; it holds pictures of up to 256 pixels a side.
    Ico,
}

impl OutputFormat {
    pub open spec fn media_type(self) -> Seq<char> {
        match self {
            OutputFormat::Png => "image/png"@,
            OutputFormat::Jpeg(_) => "image/jpeg"@,
            OutputFormat::Gif => "image/gif"@,
            OutputFormat::Bmp => "image/bmp"@,
            OutputFormat::Ico => "image/x-icon"@,
        }
    }

    /// The content type under which output of this format is served.
    pub fn content_type(self) -> (r: &'static str)
        ensures
            r@ == self.media_type(),
    {
        match self {
            OutputFormat::Png => "image/png",
            OutputFormat::Jpeg(_) => "image/jpeg",
            OutputFormat::Gif => "image/gif",
            OutputFormat::Bmp => "image/bmp",
            OutputFormat::Ico => "image/x-icon",
        }
    }
}

/// The pixels that resampling `r` to `width` by `height` with `kernel`
/// gives: those of the image that `photon_rs::transform::resize` returns.
pub uninterp spec fn resampled(r: Raster, width: u32, height: u32, kernel: SamplingFilter) -> Seq<u8>;

/// The pixels that are left of `r` when seams are carved from it until it is
/// no wider than `width` and no higher than `height`: those of the image
/// that `photon_rs::transform::seam_carve` returns.
pub uninterp spec fn seam_carved(r: Raster, width: u32, height: u32) -> Seq<u8>;

/// The pixels of `r` under the colour filter called `name`: those that
/// `photon_rs::filters::filter` leaves in the image.
pub uninterp spec fn filtered(r: Raster, name: Seq<char>) -> Seq<u8>;

/// The pixels of `r` with `mark` laid over it, the mark's top left corner at
/// column `x` of row `y`: those that `photon_rs::multiple::watermark` leaves
/// in the image.
pub uninterp spec fn overlaid(r: Raster, mark: Raster, x: int, y: int) -> Seq<u8>;

/// The picture that the bytes of an image file hold, if they hold one: that
/// of the image that `photon_rs::native::open_image_from_bytes` returns.
pub uninterp spec fn decoded_image(data: Seq<u8>) -> Option<Raster>;

/// The bytes of the image file that holds `r` in the format, if the format
/// can hold it: what `image::DynamicImage::write_to` writes.
pub uninterp spec fn encoded_image(r: Raster, format: OutputFormat) -> Option<Seq<u8>>;

/// What one operation makes of a picture.
pub enum Step {
    /// The operation was carried out; this is the picture after it.
    Done(Raster),
    /// The operation is floating-point work that the caller carries out.
    Hand,
    /// The operation cannot be honoured.
    Fault,
}

/// Whether `r` can be resampled to `width` by `height` with `kernel`: the
/// target is not empty; the working copy, of the width of `r` and the asked
/// height with sixteen bytes for each pixel (`vertical_sample` in
/// `sample.rs`), and the result can be made; and for a kernel that weighs
/// its samples no side of `r` is longer than [`SAMPLING_MAX_SIDE`].
pub open spec fn resample_fits(r: Raster, width: u32, height: u32, kernel: SamplingFilter) -> bool {
    &&& 1 <= width
    &&& 1 <= height
    &&& addressable(16, r.width, height as nat)
    &&& addressable(4, width as nat, height as nat)
    &&& kernel != SamplingFilter::Nearest ==> r.width <= SAMPLING_MAX_SIDE && r.height
        <= SAMPLING_MAX_SIDE
}

/// Whether seams can be carved from `r` down to `width` by `height`: the
/// target is not empty (`find_vertical_seam` asserts a width of two or
/// more, which an empty target would run below); and where columns or rows
/// are carved, a seam is no longer than [`SEAM_MAX_LEN`] and the gradient
/// images, of eight bytes for each pixel, can be made. Columns go first, so
/// a seam across the rows is as long as what is then left of the width.
pub open spec fn seam_fits(r: Raster, width: u32, height: u32) -> bool {
    &&& 1 <= width
    &&& 1 <= height
    &&& r.width > width ==> r.height <= SEAM_MAX_LEN
    &&& r.height > height ==> r.width <= SEAM_MAX_LEN || width <= SEAM_MAX_LEN
    &&& r.width > width || r.height > height ==> addressable(8, r.width, r.height)
}

/// What a resize makes of `r`.
pub open spec fn resize_step(r: Raster, width: u32, height: u32, rtype: i32, filter: i32) -> Step {
    match ResizeType::of_number(rtype) {
        None => Step::Fault,
        Some(ResizeType::Normal) => match SampleFilter::of_number(filter) {
            None => Step::Fault,
            Some(selector) => if resample_fits(r, width, height, selector.kernel()) {
                Step::Done(
                    Raster {
                        width: width as nat,
                        height: height as nat,
                        pixels: resampled(r, width, height, selector.kernel()),
                    },
                )
            } else {
                Step::Fault
            },
        },
        Some(ResizeType::SeamCarve) => if seam_fits(r, width, height) {
            Step::Done(
                Raster {
                    width: if r.width <= width {
                        r.width
                    } else {
                        width as nat
                    },
                    height: if r.height <= height {
                        r.height
                    } else {
                        height as nat
                    },
                    pixels: seam_carved(r, width, height),
                },
            )
        } else {
            Step::Fault
        },
    }
}

/// Whether the oil effect can run on `r`: every pixel has a neighbour within
/// the radius, which `photon_rs::effects::oil` takes for granted when it
/// indexes `map_vec[0]`; and a column or a row with the radius added stays
/// within 31 bits, in which it computes `(x as i32) + xx` and
/// `(y as i32) + yy`.
pub open spec fn oil_fits(r: Raster, radius: i32) -> bool {
    &&& 1 <= radius
    &&& 2 <= r.width
    &&& 2 <= r.height
    &&& r.width - 1 + radius <= i32::MAX
    &&& r.height - 1 + radius <= i32::MAX
}

/// Whether a text can be drawn at column `x` of row `y`.
/// `imageproc::drawing::draw_text_mut` adds the place of a pixel within the
/// text and the place of the text in 32 bits (`let image_x = gx + x` and
/// `let image_y = gy + y`); the sums stay within 31 bits where the text is
/// short enough and starts early enough.
pub open spec fn text_fits(text: Seq<char>, x: u32, y: u32) -> bool {
    &&& text.len() <= MAX_TEXT_LEN
    &&& x + GLYPH_MAX * (text.len() + 1) <= i32::MAX
    &&& y + GLYPH_MAX <= i32::MAX
}

/// What `op` makes of `r`, with `mark` as the watermark.
pub open spec fn step(r: Raster, op: Op, mark: Raster) -> Step {
    match op {
        Op::Resize { width, height, rtype, filter } => resize_step(r, width, height, rtype, filter),
        Op::Crop { x1, y1, x2, y2 } => if x1 < x2 <= r.width && y1 < y2 <= r.height && countable(
            (x2 - x1) as nat,
            (y2 - y1) as nat,
        ) {
            Step::Done(cropped(r, x1 as int, y1 as int, x2 as int, y2 as int))
        } else {
            Step::Fault
        },
        Op::Flipv => if countable(r.width, r.height) {
            Step::Done(upended(r))
        } else {
            Step::Fault
        },
        Op::Fliph => if countable(r.width, r.height) {
            Step::Done(mirrored(r))
        } else {
            Step::Fault
        },
        Op::Contrast { .. } => if countable(r.width, r.height) {
            Step::Hand
        } else {
            Step::Fault
        },
        Op::Filter { filter } => match Filter::of_number(filter) {
            Some(named) => match named.name_of() {
                Some(name) => if countable(r.width, r.height) {
                    Step::Done(
                        Raster { width: r.width, height: r.height, pixels: filtered(r, name) },
                    )
                } else {
                    Step::Fault
                },
                None => Step::Done(r),
            },
            None => Step::Done(r),
        },
        Op::Watermark { x, y, alpha } => Step::Done(
            Raster { width: r.width, height: r.height, pixels: overlaid(r, mark, x as int, y as int) },
        ),
        Op::Text { text, x, y } => if text_fits(text, x, y) {
            Step::Hand
        } else {
            Step::Fault
        },
        Op::Oil { radius, intensity } => if oil_fits(r, radius) {
            Step::Hand
        } else {
            Step::Fault
        },
    }
}

/// How far a pipeline got.
pub enum Run {
    /// Every operation from the starting point on was carried out.
    Finished(Raster),
    /// The operation at this index is the caller's to carry out, on this
    /// picture.
    Pending(int, Raster),
    /// The operation at this index cannot be honoured; this is the picture
    /// that the operations before it left.
    Faulted(int, Raster),
}

/// What the operations of `ops` from index `from` on make of `r`, one after
/// the other.
pub open spec fn run(r: Raster, ops: Seq<Op>, from: int, mark: Raster) -> Run
    decreases ops.len() - from,
{
    if from < 0 || from >= ops.len() {
        Run::Finished(r)
    } else {
        match step(r, ops[from], mark) {
            Step::Done(next) => run(next, ops, from + 1, mark),
            Step::Hand => Run::Pending(from, r),
            Step::Fault => Run::Faulted(from, r),
        }
    }
}

/// The bytes of the source are not a picture with pixels.
#[derive(Clone, Copy, Debug, PartialEq, Eq, Structural)]
pub enum SourceDecodeError {
    /// The bytes are not an image file in a supported format.
    Unreadable,
    /// The picture has no pixels; or, of a watermark, it is too wide to be
    /// scaled to its square.
    Size,
}

/// An operation cannot be honoured.
#[derive(Clone, Copy, Debug, PartialEq, Eq, Structural)]
pub struct OperationFault {
    /// The index of the operation in its pipeline.
    pub index: usize,
}

/// The picture cannot be held in the output format.
#[derive(Clone, Copy, Debug, PartialEq, Eq, Structural)]
pub struct EncodeError;

/// Where `apply` stopped.
#[derive(Clone, Copy, Debug, PartialEq, Eq, Structural)]
pub enum Progress {
    /// The pipeline is through.
    Finished,
    /// The operation at `index` is a contrast change, an oil effect or a
    /// text: the caller carries it out and goes on behind it.
    Pending { index: usize },
}

/// The capability set of an execution engine. A back end holds one picture,
/// runs pipelines on it and encodes it; whatever library does the pixel
/// work, the pipeline is run as [`run`] says.
pub trait Engine: Sized {
    /// The picture that the engine holds.
    spec fn raster(&self) -> Raster;

    /// Reads a picture from the bytes of an image file. Bytes that are no
    /// picture, and a picture without pixels, are refused.
    fn open(data: &[u8]) -> (r: Result<Self, SourceDecodeError>)
        ensures
            match r {
                Ok(engine) => decoded_image(data@) == Some(engine.raster())
                    && engine.raster().wf(),
                Err(SourceDecodeError::Unreadable) => decoded_image(data@) is None,
                Err(SourceDecodeError::Size) => decoded_image(data@) matches Some(raster)
                    && !raster.wf(),
            },
    ;

    /// Carries out the operations of `specs` from index `from` on, in
    /// order, and stops where one is the caller's to carry out or cannot be
    /// honoured.
    fn apply(&mut self, specs: &[Spec], from: usize, mark: &Self) -> (r: Result<
        Progress,
        OperationFault,
    >)
        requires
            old(self).raster().wf(),
            mark.raster().wf(),
        ensures
            final(self).raster().wf(),
            match run(old(self).raster(), ops_of(specs@), from as int, mark.raster()) {
                Run::Finished(raster) => r == Ok::<Progress, OperationFault>(Progress::Finished)
                    && final(self).raster() == raster,
                Run::Pending(index, raster) => r == Ok::<Progress, OperationFault>(
                    Progress::Pending { index: index as usize },
                ) && index < specs@.len() && final(self).raster() == raster,
                Run::Faulted(index, raster) => r == Err::<Progress, OperationFault>(
                    OperationFault { index: index as usize },
                ) && index < specs@.len() && final(self).raster() == raster,
            },
    ;

    /// Encodes the picture in the output format and ends the work on it.
    fn generate(self, format: OutputFormat) -> (r: Result<Vec<u8>, EncodeError>)
        requires
            self.raster().wf(),
        ensures
            match r {
                Ok(data) => encoded_image(self.raster(), format) == Some(data@),
                Err(_) => encoded_image(self.raster(), format) is None,
            },
    ;
}

/// The energies along the longest seam fit into 32 bits, and those along a
/// seam of one pixel more need not.
pub proof fn lemma_seam_energies_fit()
    ensures
        SEAM_MAX_ENERGY * SEAM_MAX_LEN <= u32::MAX,
        SEAM_MAX_ENERGY * (SEAM_MAX_LEN + 1) > u32::MAX,
{
}

/// The empty pipeline leaves the picture as it is.
pub proof fn law_empty_pipeline(r: Raster, mark: Raster)
    ensures
        run(r, Seq::<Op>::empty(), 0, mark) == Run::Finished(r),
{
}

/// A pipeline is run one operation after the other: where the operation at
/// `from` is carried out, the rest runs on what it left; where it is not,
/// the run stops there with the picture as it was.
pub proof fn law_in_order(r: Raster, ops: Seq<Op>, from: int, mark: Raster)
    requires
        0 <= from < ops.len(),
    ensures
        match step(r, ops[from], mark) {
            Step::Done(next) => run(r, ops, from, mark) == run(next, ops, from + 1, mark),
            Step::Hand => run(r, ops, from, mark) == Run::Pending(from, r),
            Step::Fault => run(r, ops, from, mark) == Run::Faulted(from, r),
        },
{
}

/// A crop whose bounds are out of order is a fault.
pub proof fn law_crop_out_of_order(r: Raster, x1: u32, y1: u32, x2: u32, y2: u32, mark: Raster)
    requires
        x1 >= x2 || y1 >= y2,
    ensures
        step(r, Op::Crop { x1, y1, x2, y2 }, mark) is Fault,
{
}

/// A seam-carving resize does not look at the sampling filter: whatever the
/// field holds, the operation is carried out wherever seams can be carved,
/// and with the same result.
pub proof fn law_seam_carve_ignores_filter(
    r: Raster,
    width: u32,
    height: u32,
    filter: i32,
    other: i32,
    mark: Raster,
)
    ensures
        step(r, Op::Resize { width, height, rtype: ResizeType::SeamCarve.number_of(), filter }, mark)
            == step(
            r,
            Op::Resize { width, height, rtype: ResizeType::SeamCarve.number_of(), filter: other },
            mark,
        ),
        seam_fits(r, width, height) ==> step(
            r,
            Op::Resize { width, height, rtype: ResizeType::SeamCarve.number_of(), filter },
            mark,
        ) is Done,
{
}

/// A normal resize with a sampling filter of the palette, to a target that
/// is not empty, is carried out wherever the picture can be resampled, and
/// gives a picture of the asked size. The undefined filter is the
/// nearest-neighbour one.
pub proof fn law_resize_gives_the_asked_size(
    r: Raster,
    width: u32,
    height: u32,
    selector: SampleFilter,
    mark: Raster,
)
    requires
        resample_fits(r, width, height, selector.kernel()),
    ensures
        step(
            r,
            Op::Resize {
                width,
                height,
                rtype: ResizeType::Normal.number_of(),
                filter: selector.number_of(),
            },
            mark,
        ) == Step::Done(
            Raster {
                width: width as nat,
                height: height as nat,
                pixels: resampled(r, width, height, selector.kernel()),
            },
        ),
        SampleFilter::Undefined.kernel() == SamplingFilter::Nearest,
{
}

/// A filter whose selector names no filter, or the unspecified one, leaves
/// the picture as it is.
pub proof fn law_unknown_filter_is_identity(r: Raster, filter: i32, mark: Raster)
    requires
        !(1 <= filter <= 3),
    ensures
        step(r, Op::Filter { filter }, mark) == Step::Done(r),
{
}

} // verus!
