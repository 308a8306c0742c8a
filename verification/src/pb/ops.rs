//! Operations and pipelines, with the mathematical values that stand for them.

use vstd::prelude::*;
use crate::pb::filter::Filter;
use crate::pb::resize::{ResizeType, SampleFilter};

verus! {

/// One edit step. Selectors are kept as the numbers that travelled on the
/// wire, floating-point magnitudes as their IEEE 754 single-precision bits.
#[derive(Clone, Debug, PartialEq, Eq)]
pub enum Spec {
    Resize { width: u32, height: u32, rtype: i32, filter: i32 },
    Crop { x1: u32, y1: u32, x2: u32, y2: u32 },
    Flipv,
    Fliph,
    Contrast { contrast: u32 },
    Filter { filter: i32 },
    Watermark { x: u32, y: u32, alpha: u32 },
    Text { text: String, x: u32, y: u32 },
    Oil { radius: i32, intensity: u32 },
}

/// The mathematical value of a [`Spec`].
pub enum Op {
    Resize { width: u32, height: u32, rtype: i32, filter: i32 },
    Crop { x1: u32, y1: u32, x2: u32, y2: u32 },
    Flipv,
    Fliph,
    Contrast { contrast: u32 },
    Filter { filter: i32 },
    Watermark { x: u32, y: u32, alpha: u32 },
    Text { text: Seq<char>, x: u32, y: u32 },
    Oil { radius: i32, intensity: u32 },
}

impl View for Spec {
    type V = Op;

    open spec fn view(&self) -> Op {
        match *self {
            Spec::Resize { width, height, rtype, filter } => Op::Resize { width, height, rtype, filter },
            Spec::Crop { x1, y1, x2, y2 } => Op::Crop { x1, y1, x2, y2 },
            Spec::Flipv => Op::Flipv,
            Spec::Fliph => Op::Fliph,
            Spec::Contrast { contrast } => Op::Contrast { contrast },
            Spec::Filter { filter } => Op::Filter { filter },
            Spec::Watermark { x, y, alpha } => Op::Watermark { x, y, alpha },
            Spec::Text { text, x, y } => Op::Text { text: text@, x, y },
            Spec::Oil { radius, intensity } => Op::Oil { radius, intensity },
        }
    }
}

/// An ordered pipeline of operations; the empty pipeline is the identity.
#[derive(Clone, Debug, PartialEq, Eq)]
pub struct ImageSpec {
    pub specs: Vec<Spec>,
}

impl View for ImageSpec {
    type V = Seq<Op>;

    open spec fn view(&self) -> Seq<Op> {
        ops_of(self.specs@)
    }
}

/// The mathematical values of a run of operations, in order.
pub open spec fn ops_of(specs: Seq<Spec>) -> Seq<Op> {
    Seq::new(specs.len(), |i: int| specs[i]@)
}

/// The bits of the single-precision number 50.
pub const OIL_INTENSITY: u32 = 0x4248_0000;

/// The radius of the stock oil effect.
pub const OIL_RADIUS: i32 = 2;

impl ImageSpec {
    pub fn new(specs: Vec<Spec>) -> (r: ImageSpec)
        ensures
            r.specs == specs,
            r@ == ops_of(specs@),
    {
        ImageSpec { specs }
    }
}

impl Spec {
    pub fn new_resize_seam_carve(width: u32, height: u32) -> (r: Spec)
        ensures
            r@ == (Op::Resize {
                width,
                height,
                rtype: ResizeType::SeamCarve.number_of(),
                filter: SampleFilter::Undefined.number_of(),
            }),
    {
        Spec::Resize {
            width,
            height,
            rtype: ResizeType::SeamCarve.number(),
            filter: SampleFilter::Undefined.number(),
        }
    }

    pub fn new_resize(width: u32, height: u32, filter: SampleFilter) -> (r: Spec)
        ensures
            r@ == (Op::Resize {
                width,
                height,
                rtype: ResizeType::Normal.number_of(),
                filter: filter.number_of(),
            }),
    {
        Spec::Resize { width, height, rtype: ResizeType::Normal.number(), filter: filter.number() }
    }

    pub fn new_filter(filter: Filter) -> (r: Spec)
        ensures
            r@ == (Op::Filter { filter: filter.number_of() }),
    {
        Spec::Filter { filter: filter.number() }
    }

    pub fn new_watermark(x: u32, y: u32, a: u32) -> (r: Spec)
        ensures
            r@ == (Op::Watermark { x, y, alpha: a }),
    {
        Spec::Watermark { x, y, alpha: a }
    }

    pub fn new_draw_text(text: String, x: u32, y: u32) -> (r: Spec)
        ensures
            r@ == (Op::Text { text: text@, x, y }),
    {
        Spec::Text { text, x, y }
    }

    pub fn new_oil() -> (r: Spec)
        ensures
            r@ == (Op::Oil { radius: OIL_RADIUS, intensity: OIL_INTENSITY }),
    {
        Spec::Oil { radius: OIL_RADIUS, intensity: OIL_INTENSITY }
    }
}

} // verus!
