//! Selectors of the resize operation: the algorithm and the sampling kernel.

use vstd::prelude::*;

verus! {

/// How a resize reaches its target size.
#[derive(Clone, Copy, Debug, PartialEq, Eq, Structural)]
pub enum ResizeType {
    /// Resample every pixel with a sampling kernel.
    Normal,
    /// Remove the least noticeable seams; never enlarges.
    SeamCarve,
}

/// The sampling kernel selector as it travels on the wire.
#[derive(Clone, Copy, Debug, PartialEq, Eq, Structural)]
pub enum SampleFilter {
    Undefined,
    Nearest,
    Triangle,
    CatmullRom,
    Gaussian,
    Lanczos3,
}

/// A sampling kernel that a back end can run.
#[derive(Clone, Copy, Debug, PartialEq, Eq, Structural)]
pub enum SamplingFilter {
    Nearest,
    Triangle,
    CatmullRom,
    Gaussian,
    Lanczos3,
}

impl ResizeType {
    pub open spec fn number_of(self) -> i32 {
        match self {
            ResizeType::Normal => 0i32,
            ResizeType::SeamCarve => 1i32,
        }
    }

    pub open spec fn of_number(value: i32) -> Option<ResizeType> {
        if value == 0 {
            Some(ResizeType::Normal)
        } else if value == 1 {
            Some(ResizeType::SeamCarve)
        } else {
            None
        }
    }

    pub fn number(self) -> (n: i32)
        ensures
            n == self.number_of(),
            ResizeType::of_number(n) == Some(self),
    {
        match self {
            ResizeType::Normal => 0,
            ResizeType::SeamCarve => 1,
        }
    }

    pub fn from_i32(value: i32) -> (r: Option<ResizeType>)
        ensures
            r == ResizeType::of_number(value),
            r matches Some(t) ==> t.number_of() == value,
    {
        match value {
            0 => Some(ResizeType::Normal),
            1 => Some(ResizeType::SeamCarve),
            _ => None,
        }
    }
}

impl SampleFilter {
    pub open spec fn number_of(self) -> i32 {
        match self {
            SampleFilter::Undefined => 0i32,
            SampleFilter::Nearest => 1i32,
            SampleFilter::Triangle => 2i32,
            SampleFilter::CatmullRom => 3i32,
            SampleFilter::Gaussian => 4i32,
            SampleFilter::Lanczos3 => 5i32,
        }
    }

    pub open spec fn of_number(value: i32) -> Option<SampleFilter> {
        if value == 0 {
            Some(SampleFilter::Undefined)
        } else if value == 1 {
            Some(SampleFilter::Nearest)
        } else if value == 2 {
            Some(SampleFilter::Triangle)
        } else if value == 3 {
            Some(SampleFilter::CatmullRom)
        } else if value == 4 {
            Some(SampleFilter::Gaussian)
        } else if value == 5 {
            Some(SampleFilter::Lanczos3)
        } else {
            None
        }
    }

    /// The kernel that runs for this selector: `Undefined` falls back to `Nearest`.
    pub open spec fn kernel(self) -> SamplingFilter {
        match self {
            SampleFilter::Undefined => SamplingFilter::Nearest,
            SampleFilter::Nearest => SamplingFilter::Nearest,
            SampleFilter::Triangle => SamplingFilter::Triangle,
            SampleFilter::CatmullRom => SamplingFilter::CatmullRom,
            SampleFilter::Gaussian => SamplingFilter::Gaussian,
            SampleFilter::Lanczos3 => SamplingFilter::Lanczos3,
        }
    }

    pub fn number(self) -> (n: i32)
        ensures
            n == self.number_of(),
            SampleFilter::of_number(n) == Some(self),
    {
        match self {
            SampleFilter::Undefined => 0,
            SampleFilter::Nearest => 1,
            SampleFilter::Triangle => 2,
            SampleFilter::CatmullRom => 3,
            SampleFilter::Gaussian => 4,
            SampleFilter::Lanczos3 => 5,
        }
    }

    pub fn from_i32(value: i32) -> (r: Option<SampleFilter>)
        ensures
            r == SampleFilter::of_number(value),
            r matches Some(f) ==> f.number_of() == value,
    {
        match value {
            0 => Some(SampleFilter::Undefined),
            1 => Some(SampleFilter::Nearest),
            2 => Some(SampleFilter::Triangle),
            3 => Some(SampleFilter::CatmullRom),
            4 => Some(SampleFilter::Gaussian),
            5 => Some(SampleFilter::Lanczos3),
            _ => None,
        }
    }
}

impl From<SampleFilter> for SamplingFilter {
    fn from(value: SampleFilter) -> (r: SamplingFilter) {
        match value {
            SampleFilter::Undefined => SamplingFilter::Nearest,
            SampleFilter::Nearest => SamplingFilter::Nearest,
            SampleFilter::Triangle => SamplingFilter::Triangle,
            SampleFilter::CatmullRom => SamplingFilter::CatmullRom,
            SampleFilter::Gaussian => SamplingFilter::Gaussian,
            SampleFilter::Lanczos3 => SamplingFilter::Lanczos3,
        }
    }
}

impl vstd::std_specs::convert::FromSpecImpl<SampleFilter> for SamplingFilter {
    open spec fn obeys_from_spec() -> bool {
        true
    }

    open spec fn from_spec(value: SampleFilter) -> SamplingFilter {
        value.kernel()
    }
}

} // verus!
