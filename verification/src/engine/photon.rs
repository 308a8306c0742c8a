//! The engine on top of the `photon_rs` image library.

use vstd::prelude::*;
use vstd::string::StrSliceExecFns;
use photon_rs::PhotonImage;
use crate::engine::{
    addressable, countable, cropped, decoded_image, encoded_image, filtered, mirrored, overlaid,
    resample_fits, resampled, run, seam_carved, seam_fits, step, upended, EncodeError, Engine,
    OperationFault, OutputFormat, Progress, Raster, Run, SourceDecodeError, Step, MAX_TEXT_LEN,
    GLYPH_MAX, SAMPLING_MAX_SIDE, SEAM_MAX_LEN, WATERMARK_SIDE,
};
use crate::pb::filter::Filter;
use crate::pb::ops::{ops_of, Spec};
use crate::pb::resize::{ResizeType, SampleFilter, SamplingFilter};

verus! {

/// `photon_rs::PhotonImage`, carried through as it is.
#[verifier::external_type_specification]
#[verifier::external_body]
pub struct ExPhotonImage(PhotonImage);

/// `photon_rs::native::Error`: why an image file could not be read.
#[verifier::external_type_specification]
#[verifier::external_body]
pub struct ExPhotonError(photon_rs::native::Error);

/// `image::ImageError`: why an image file could not be written.
#[verifier::external_type_specification]
#[verifier::external_body]
pub struct ExImageError(image::ImageError);

/// The bytes of the pixels that a `PhotonImage` holds: what
/// `PhotonImage::get_raw_pixels` returns.
pub uninterp spec fn image_pixels(image: PhotonImage) -> Seq<u8>;

/// The width that a `PhotonImage` records: what `PhotonImage::get_width`
/// returns.
pub uninterp spec fn image_width(image: PhotonImage) -> nat;

/// The height that a `PhotonImage` records: what `PhotonImage::get_height`
/// returns.
pub uninterp spec fn image_height(image: PhotonImage) -> nat;

/// The picture that a `PhotonImage` holds.
pub open spec fn raster_of(image: PhotonImage) -> Raster {
    Raster { width: image_width(image), height: image_height(image), pixels: image_pixels(image) }
}

/// Calls `PhotonImage::get_width`.
///
/// Trusted: the result is the recorded width.
#[verifier::external_body]
fn photon_width(image: &PhotonImage) -> (w: u32)
    ensures
        w == image_width(*image),
{
    image.get_width()
}

/// Calls `PhotonImage::get_height`.
///
/// Trusted: the result is the recorded height.
#[verifier::external_body]
fn photon_height(image: &PhotonImage) -> (h: u32)
    ensures
        h == image_height(*image),
{
    image.get_height()
}

/// Calls `PhotonImage::get_raw_pixels`, which copies the pixels out.
///
/// Trusted: the result holds the bytes of the pixels.
#[verifier::external_body]
fn photon_pixels(image: &PhotonImage) -> (pixels: Vec<u8>)
    ensures
        pixels@ == image_pixels(*image),
{
    image.get_raw_pixels()
}

/// Calls `photon_rs::native::open_image_from_bytes`.
///
/// Trusted: the call succeeds exactly where the bytes hold a picture, and
/// the image then holds that picture with four bytes for each pixel.
#[verifier::external_body]
fn photon_open(data: &[u8]) -> (r: Result<PhotonImage, photon_rs::native::Error>)
    ensures
        match r {
            Ok(image) => decoded_image(data@) == Some(raster_of(image)) && image_pixels(
                image,
            ).len() == 4 * (image_width(image) * image_height(image)),
            Err(_) => decoded_image(data@) is None,
        },
{
    photon_rs::native::open_image_from_bytes(data)
}

/// Calls `photon_rs::transform::crop`.
///
/// Trusted: the result is the named part of the picture. The call panics on
/// bounds that are out of order or outside the picture, and it walks the
/// pixels of the part with a 32-bit counter; the precondition leaves out
/// what it cannot do.
#[verifier::external_body]
fn photon_crop(image: &PhotonImage, x1: u32, y1: u32, x2: u32, y2: u32) -> (out: PhotonImage)
    requires
        raster_of(*image).wf(),
        x1 < x2 <= image_width(*image),
        y1 < y2 <= image_height(*image),
        countable((x2 - x1) as nat, (y2 - y1) as nat),
    ensures
        raster_of(out) == cropped(raster_of(*image), x1 as int, y1 as int, x2 as int, y2 as int),
{
    photon_rs::transform::crop(image, x1, y1, x2, y2)
}

/// Calls `photon_rs::transform::fliph`.
///
/// Trusted: the columns of the picture are reversed. The call walks the
/// pixels with a 32-bit counter, which the precondition makes room for.
#[verifier::external_body]
fn photon_fliph(image: &mut PhotonImage)
    requires
        raster_of(*old(image)).wf(),
        countable(image_width(*old(image)), image_height(*old(image))),
    ensures
        raster_of(*final(image)) == mirrored(raster_of(*old(image))),
{
    photon_rs::transform::fliph(image)
}

/// Calls `photon_rs::transform::flipv`.
///
/// Trusted: the rows of the picture are reversed. The call walks the
/// pixels with a 32-bit counter, which the precondition makes room for.
#[verifier::external_body]
fn photon_flipv(image: &mut PhotonImage)
    requires
        raster_of(*old(image)).wf(),
        countable(image_width(*old(image)), image_height(*old(image))),
    ensures
        raster_of(*final(image)) == upended(raster_of(*old(image))),
{
    photon_rs::transform::flipv(image)
}

/// Calls `photon_rs::transform::resize`.
///
/// Trusted: the result has the asked size, four bytes for each pixel, and
/// the pixels that resampling gives. The call panics on an empty picture,
/// where a buffer of its own cannot be made, and where the weights of a
/// kernel sum to zero; the precondition leaves these out.
#[verifier::external_body]
fn photon_resize(image: &PhotonImage, width: u32, height: u32, kernel: SamplingFilter) -> (out:
    PhotonImage)
    requires
        raster_of(*image).wf(),
        resample_fits(raster_of(*image), width, height, kernel),
    ensures
        image_width(out) == width,
        image_height(out) == height,
        image_pixels(out) == resampled(raster_of(*image), width, height, kernel),
        image_pixels(out).len() == 4 * (width * height),
{
    let kernel = match kernel {
        SamplingFilter::Nearest => photon_rs::transform::SamplingFilter::Nearest,
        SamplingFilter::Triangle => photon_rs::transform::SamplingFilter::Triangle,
        SamplingFilter::CatmullRom => photon_rs::transform::SamplingFilter::CatmullRom,
        SamplingFilter::Gaussian => photon_rs::transform::SamplingFilter::Gaussian,
        SamplingFilter::Lanczos3 => photon_rs::transform::SamplingFilter::Lanczos3,
    };
    photon_rs::transform::resize(image, width, height, kernel)
}

/// Calls `photon_rs::transform::seam_carve`.
///
/// Trusted: the result is no wider than `width` and no higher than `height`,
/// keeps a side that was short enough, and has four bytes for each pixel.
/// The call panics on a target of no width or height, where the 32-bit sum
/// of the energies along a seam overflows, and where a gradient image
/// cannot be made; the precondition leaves these out.
#[verifier::external_body]
fn photon_seam_carve(image: &PhotonImage, width: u32, height: u32) -> (out: PhotonImage)
    requires
        raster_of(*image).wf(),
        seam_fits(raster_of(*image), width, height),
    ensures
        image_width(out) == if image_width(*image) <= width {
            image_width(*image)
        } else {
            width as nat
        },
        image_height(out) == if image_height(*image) <= height {
            image_height(*image)
        } else {
            height as nat
        },
        image_pixels(out) == seam_carved(raster_of(*image), width, height),
        image_pixels(out).len() == 4 * (image_width(out) * image_height(out)),
{
    photon_rs::transform::seam_carve(image, width, height)
}

/// Calls `photon_rs::filters::filter`.
///
/// Trusted: under each of the three names of the palette the size stays
/// and the pixels are those of the filtered picture, as many as before.
/// The call walks the pixels with a 32-bit counter, which the precondition
/// makes room for.
#[verifier::external_body]
fn photon_filter(image: &mut PhotonImage, name: &str)
    requires
        raster_of(*old(image)).wf(),
        countable(image_width(*old(image)), image_height(*old(image))),
        name@ == "oceanic"@ || name@ == "islands"@ || name@ == "marine"@,
    ensures
        image_width(*final(image)) == image_width(*old(image)),
        image_height(*final(image)) == image_height(*old(image)),
        image_pixels(*final(image)) == filtered(raster_of(*old(image)), name@),
        image_pixels(*final(image)).len() == image_pixels(*old(image)).len(),
{
    photon_rs::filters::filter(image, name)
}

/// Calls `photon_rs::multiple::watermark`.
///
/// Trusted: the size stays and the pixels are those of the picture with the
/// mark laid over it, as many as before. A mark that reaches over the edge
/// is cut off there.
#[verifier::external_body]
fn photon_watermark(image: &mut PhotonImage, mark: &PhotonImage, x: u32, y: u32)
    requires
        raster_of(*old(image)).wf(),
        raster_of(*mark).wf(),
    ensures
        image_width(*final(image)) == image_width(*old(image)),
        image_height(*final(image)) == image_height(*old(image)),
        image_pixels(*final(image)) == overlaid(
            raster_of(*old(image)),
            raster_of(*mark),
            x as int,
            y as int,
        ),
        image_pixels(*final(image)).len() == image_pixels(*old(image)).len(),
{
    photon_rs::multiple::watermark(image, mark, i64::from(x), i64::from(y))
}

/// Calls `photon_rs::helpers::dyn_image_from_raw` and `DynamicImage::write_to`
/// on a buffer in memory.
///
/// Trusted: the call succeeds exactly where the format can hold the picture,
/// and then returns the bytes of the image file.
#[verifier::external_body]
fn image_to_bytes(image: &PhotonImage, format: OutputFormat) -> (r: Result<
    Vec<u8>,
    image::ImageError,
>)
    requires
        raster_of(*image).wf(),
    ensures
        match r {
            Ok(data) => encoded_image(raster_of(*image), format) == Some(data@),
            Err(_) => encoded_image(raster_of(*image), format) is None,
        },
{
    let format = match format {
        OutputFormat::Png => image::ImageOutputFormat::Png,
        OutputFormat::Jpeg(quality) => image::ImageOutputFormat::Jpeg(quality),
        OutputFormat::Gif => image::ImageOutputFormat::Gif,
        OutputFormat::Bmp => image::ImageOutputFormat::Bmp,
        OutputFormat::Ico => image::ImageOutputFormat::Ico,
    };
    let mut out = std::io::Cursor::new(Vec::new());
    photon_rs::helpers::dyn_image_from_raw(image).write_to(&mut out, format)?;
    Ok(out.into_inner())
}

/// Whether the pixels of a picture of this size can be walked one by one.
pub fn is_countable(width: u32, height: u32) -> (r: bool)
    ensures
        r == countable(width as nat, height as nat),
{
    assert(width * height <= 0xffff_ffff * 0xffff_ffff) by (nonlinear_arith)
        requires
            width <= 0xffff_ffff,
            height <= 0xffff_ffff,
    ;
    (width as u64) * (height as u64) < u32::MAX as u64
}

/// Whether a buffer with `each` bytes for every pixel of a picture of this
/// size can be made.
pub fn is_addressable(each: u8, width: u32, height: u32) -> (r: bool)
    ensures
        r == addressable(each as nat, width as nat, height as nat),
{
    assert(width * height <= 0xffff_ffff * 0xffff_ffff) by (nonlinear_arith)
        requires
            width <= 0xffff_ffff,
            height <= 0xffff_ffff,
    ;
    let area: u64 = (width as u64) * (height as u64);
    assert(each * area <= 255 * 0xffff_ffff_ffff_ffff) by (nonlinear_arith)
        requires
            each <= 255,
            area <= 0xffff_ffff_ffff_ffff,
    ;
    (each as u128) * (area as u128) <= isize::MAX as u128
}

/// What became of one operation.
#[derive(Clone, Copy, Debug, PartialEq, Eq, Structural)]
pub enum Stepped {
    /// It was carried out.
    Done,
    /// It is the caller's to carry out.
    Hand,
    /// It cannot be honoured.
    Fault,
}

/// A picture that is being worked on.
pub struct Photon(PhotonImage);

impl View for Photon {
    type V = Raster;

    closed spec fn view(&self) -> Raster {
        raster_of(self.0)
    }
}

impl Photon {
    /// The picture is not empty and has exactly its pixels.
    pub open spec fn wf(&self) -> bool {
        self@.wf()
    }

    /// Takes a picture in, or refuses one that is empty or does not have
    /// exactly its pixels.
    pub fn from_image(image: PhotonImage) -> (r: Option<Photon>)
        ensures
            match r {
                Some(photon) => photon@ == raster_of(image) && photon.wf(),
                None => !raster_of(image).wf(),
            },
    {
        let width = photon_width(&image);
        let height = photon_height(&image);
        if width < 1 || height < 1 {
            return None;
        }
        let pixels = photon_pixels(&image);
        assert(width * height <= 0xffff_ffff * 0xffff_ffff) by (nonlinear_arith)
            requires
                width <= 0xffff_ffff,
                height <= 0xffff_ffff,
        ;
        if pixels.len() as u128 != 4 * ((width as u128) * (height as u128)) {
            return None;
        }
        Some(Photon(image))
    }

    /// Hands the picture out.
    pub fn into_image(self) -> (image: PhotonImage)
        ensures
            raster_of(image) == self@,
    {
        self.0
    }

    /// Reads a picture from the bytes of an image file. Every picture that
    /// the bytes hold is taken, but one without pixels.
    pub fn open(data: &[u8]) -> (r: Result<Photon, SourceDecodeError>)
        ensures
            match r {
                Ok(photon) => decoded_image(data@) == Some(photon@) && photon.wf(),
                Err(SourceDecodeError::Unreadable) => decoded_image(data@) is None,
                Err(SourceDecodeError::Size) => decoded_image(data@) matches Some(raster)
                    && !raster.wf(),
            },
    {
        match photon_open(data) {
            Ok(image) => match Photon::from_image(image) {
                Some(photon) => Ok(photon),
                None => Err(SourceDecodeError::Size),
            },
            Err(_) => Err(SourceDecodeError::Unreadable),
        }
    }

    /// Reads the watermark from the bytes of an image file and scales it to
    /// its square with the nearest-neighbour kernel.
    pub fn watermark(data: &[u8]) -> (r: Result<Photon, SourceDecodeError>)
        ensures
            match r {
                Ok(mark) => decoded_image(data@) matches Some(raster) && raster.wf()
                    && resample_fits(
                    raster,
                    WATERMARK_SIDE,
                    WATERMARK_SIDE,
                    SamplingFilter::Nearest,
                ) && mark.wf() && mark@ == (Raster {
                    width: WATERMARK_SIDE as nat,
                    height: WATERMARK_SIDE as nat,
                    pixels: resampled(raster, WATERMARK_SIDE, WATERMARK_SIDE, SamplingFilter::Nearest),
                }),
                Err(SourceDecodeError::Unreadable) => decoded_image(data@) is None,
                Err(SourceDecodeError::Size) => decoded_image(data@) matches Some(raster) && !(
                raster.wf() && resample_fits(
                    raster,
                    WATERMARK_SIDE,
                    WATERMARK_SIDE,
                    SamplingFilter::Nearest,
                )),
            },
    {
        let source = Photon::open(data)?;
        if !source.resample_fits(WATERMARK_SIDE, WATERMARK_SIDE, SamplingFilter::Nearest) {
            return Err(SourceDecodeError::Size);
        }
        let scaled = photon_resize(
            &source.0,
            WATERMARK_SIDE,
            WATERMARK_SIDE,
            SamplingFilter::Nearest,
        );
        Ok(Photon(scaled))
    }

    /// The number of columns.
    pub fn width(&self) -> (w: u32)
        ensures
            w == self@.width,
    {
        photon_width(&self.0)
    }

    /// The number of rows.
    pub fn height(&self) -> (h: u32)
        ensures
            h == self@.height,
    {
        photon_height(&self.0)
    }

    /// A copy of the pixels.
    pub fn pixels(&self) -> (pixels: Vec<u8>)
        ensures
            pixels@ == self@.pixels,
    {
        photon_pixels(&self.0)
    }

    fn resize(&mut self, width: u32, height: u32, rtype: i32, filter: i32) -> (r: Stepped)
        requires
            old(self).wf(),
        ensures
            final(self).wf(),
            match crate::engine::resize_step(old(self)@, width, height, rtype, filter) {
                Step::Done(next) => r == Stepped::Done && final(self)@ == next,
                Step::Hand => r == Stepped::Hand && final(self)@ == old(self)@,
                Step::Fault => r == Stepped::Fault && final(self)@ == old(self)@,
            },
    {
        match ResizeType::from_i32(rtype) {
            None => Stepped::Fault,
            Some(ResizeType::Normal) => match SampleFilter::from_i32(filter) {
                None => Stepped::Fault,
                Some(selector) => {
                    let kernel = SamplingFilter::from(selector);
                    if self.resample_fits(width, height, kernel) {
                        self.0 = photon_resize(&self.0, width, height, kernel);
                        Stepped::Done
                    } else {
                        Stepped::Fault
                    }
                },
            },
            Some(ResizeType::SeamCarve) => {
                if self.seam_fits(width, height) {
                    self.0 = photon_seam_carve(&self.0, width, height);
                    Stepped::Done
                } else {
                    Stepped::Fault
                }
            },
        }
    }

    /// Whether this picture can be resampled to `width` by `height` with
    /// `kernel`.
    fn resample_fits(&self, width: u32, height: u32, kernel: SamplingFilter) -> (r: bool)
        ensures
            r == resample_fits(self@, width, height, kernel),
    {
        let w = self.width();
        let h = self.height();
        let exact = match kernel {
            SamplingFilter::Nearest => true,
            _ => w <= SAMPLING_MAX_SIDE && h <= SAMPLING_MAX_SIDE,
        };
        width >= 1 && height >= 1 && is_addressable(16, w, height) && is_addressable(
            4,
            width,
            height,
        ) && exact
    }

    /// Whether seams can be carved from this picture down to `width` by
    /// `height`.
    fn seam_fits(&self, width: u32, height: u32) -> (r: bool)
        ensures
            r == seam_fits(self@, width, height),
    {
        let w = self.width();
        let h = self.height();
        let columns = w > width;
        let rows = h > height;
        width >= 1 && height >= 1 && (!columns || h <= SEAM_MAX_LEN) && (!rows || w
            <= SEAM_MAX_LEN || width <= SEAM_MAX_LEN) && (!(columns || rows) || is_addressable(
            8,
            w,
            h,
        ))
    }

    /// Whether the oil effect can run on this picture.
    fn oil_fits(&self, radius: i32) -> (r: bool)
        ensures
            r == crate::engine::oil_fits(self@, radius),
    {
        let w = self.width() as i64;
        let h = self.height() as i64;
        let reach = radius as i64;
        reach >= 1 && w >= 2 && h >= 2 && w - 1 + reach <= i32::MAX as i64 && h - 1 + reach
            <= i32::MAX as i64
    }

    /// Carries out one operation, or says that it is the caller's or that
    /// it cannot be honoured; then the picture is as it was.
    pub fn transform(&mut self, op: &Spec, mark: &Photon) -> (r: Stepped)
        requires
            old(self).wf(),
            mark.wf(),
        ensures
            final(self).wf(),
            match step(old(self)@, op@, mark@) {
                Step::Done(next) => r == Stepped::Done && final(self)@ == next,
                Step::Hand => r == Stepped::Hand && final(self)@ == old(self)@,
                Step::Fault => r == Stepped::Fault && final(self)@ == old(self)@,
            },
    {
        match op {
            Spec::Resize { width, height, rtype, filter } => self.resize(
                *width,
                *height,
                *rtype,
                *filter,
            ),
            Spec::Crop { x1, y1, x2, y2 } => {
                if *x1 < *x2 && *x2 <= self.width() && *y1 < *y2 && *y2 <= self.height()
                    && is_countable(*x2 - *x1, *y2 - *y1) {
                    self.0 = photon_crop(&self.0, *x1, *y1, *x2, *y2);
                    Stepped::Done
                } else {
                    Stepped::Fault
                }
            },
            Spec::Flipv => {
                if is_countable(self.width(), self.height()) {
                    photon_flipv(&mut self.0);
                    Stepped::Done
                } else {
                    Stepped::Fault
                }
            },
            Spec::Fliph => {
                if is_countable(self.width(), self.height()) {
                    photon_fliph(&mut self.0);
                    Stepped::Done
                } else {
                    Stepped::Fault
                }
            },
            Spec::Contrast { .. } => {
                if is_countable(self.width(), self.height()) {
                    Stepped::Hand
                } else {
                    Stepped::Fault
                }
            },
            Spec::Filter { filter } => {
                match Filter::from_i32(*filter) {
                    Some(named) => match named.to_str() {
                        Some(name) => {
                            if is_countable(self.width(), self.height()) {
                                photon_filter(&mut self.0, name);
                                Stepped::Done
                            } else {
                                Stepped::Fault
                            }
                        },
                        None => Stepped::Done,
                    },
                    None => Stepped::Done,
                }
            },
            Spec::Watermark { x, y, .. } => {
                photon_watermark(&mut self.0, &mark.0, *x, *y);
                Stepped::Done
            },
            Spec::Text { text, x, y } => {
                let length = text.as_str().unicode_len();
                if length <= MAX_TEXT_LEN && (*x as u64) + (GLYPH_MAX as u64) * (length as u64
                    + 1) <= i32::MAX as u64 && (*y as u64) + (GLYPH_MAX as u64)
                    <= i32::MAX as u64 {
                    Stepped::Hand
                } else {
                    Stepped::Fault
                }
            },
            Spec::Oil { radius, .. } => {
                if self.oil_fits(*radius) {
                    Stepped::Hand
                } else {
                    Stepped::Fault
                }
            },
        }
    }

    /// Carries out the operations of `specs` from index `from` on, in order,
    /// until the pipeline is through, or an operation is the caller's to
    /// carry out, or one cannot be honoured. The picture is then what the
    /// operations before that point made of it.
    pub fn apply(&mut self, specs: &[Spec], from: usize, mark: &Photon) -> (r: Result<
        Progress,
        OperationFault,
    >)
        requires
            old(self).wf(),
            mark.wf(),
        ensures
            final(self).wf(),
            match run(old(self)@, ops_of(specs@), from as int, mark@) {
                Run::Finished(raster) => r == Ok::<Progress, OperationFault>(Progress::Finished)
                    && final(self)@ == raster,
                Run::Pending(index, raster) => r == Ok::<Progress, OperationFault>(
                    Progress::Pending { index: index as usize },
                ) && index < specs@.len() && final(self)@ == raster,
                Run::Faulted(index, raster) => r == Err::<Progress, OperationFault>(
                    OperationFault { index: index as usize },
                ) && index < specs@.len() && final(self)@ == raster,
            },
    {
        let ghost ops = ops_of(specs@);
        let mut i: usize = from;
        while i < specs.len()
            invariant
                self.wf(),
                mark.wf(),
                from <= i,
                ops == ops_of(specs@),
                run(old(self)@, ops, from as int, mark@) == run(self@, ops, i as int, mark@),
            decreases specs.len() - i,
        {
            match self.transform(&specs[i], mark) {
                Stepped::Done => {
                    i += 1;
                },
                Stepped::Hand => {
                    return Ok(Progress::Pending { index: i });
                },
                Stepped::Fault => {
                    return Err(OperationFault { index: i });
                },
            }
        }
        Ok(Progress::Finished)
    }

    /// Encodes the picture in the output format. This ends the work on it.
    pub fn generate(self, format: OutputFormat) -> (r: Result<Vec<u8>, EncodeError>)
        requires
            self.wf(),
        ensures
            match r {
                Ok(data) => encoded_image(self@, format) == Some(data@),
                Err(_) => encoded_image(self@, format) is None,
            },
    {
        match image_to_bytes(&self.0, format) {
            Ok(data) => Ok(data),
            Err(_) => Err(EncodeError),
        }
    }
}

impl Engine for Photon {
    open spec fn raster(&self) -> Raster {
        self@
    }

    fn open(data: &[u8]) -> (r: Result<Photon, SourceDecodeError>) {
        Photon::open(data)
    }

    fn apply(&mut self, specs: &[Spec], from: usize, mark: &Photon) -> (r: Result<
        Progress,
        OperationFault,
    >) {
        Photon::apply(self, specs, from, mark)
    }

    fn generate(self, format: OutputFormat) -> (r: Result<Vec<u8>, EncodeError>) {
        Photon::generate(self, format)
    }
}

impl TryFrom<Vec<u8>> for Photon {
    type Error = SourceDecodeError;

    fn try_from(data: Vec<u8>) -> (r: Result<Photon, SourceDecodeError>)
        ensures
            match r {
                Ok(photon) => decoded_image(data@) == Some(photon@) && photon.wf(),
                Err(SourceDecodeError::Unreadable) => decoded_image(data@) is None,
                Err(SourceDecodeError::Size) => decoded_image(data@) matches Some(raster)
                    && !raster.wf(),
            },
    {
        Photon::open(data.as_slice())
    }
}

impl vstd::std_specs::convert::TryFromSpecImpl<Vec<u8>> for Photon {
    open spec fn obeys_try_from_spec() -> bool {
        false
    }

    open spec fn try_from_spec(data: Vec<u8>) -> Result<Photon, SourceDecodeError> {
        Err(SourceDecodeError::Unreadable)
    }
}

} // verus!
