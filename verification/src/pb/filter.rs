//! The fixed palette of named colour filters.

use vstd::prelude::*;

verus! {

/// A named colour filter. `Unspecified` stands for "leave the picture as it is".
#[derive(Clone, Copy, Debug, PartialEq, Eq, Structural)]
pub enum Filter {
    Unspecified,
    Oceanic,
    Islands,
    Marine,
}

impl Filter {
    /// The selector number that stands for this filter on the wire.
    pub open spec fn number_of(self) -> i32 {
        match self {
            Filter::Unspecified => 0i32,
            Filter::Oceanic => 1i32,
            Filter::Islands => 2i32,
            Filter::Marine => 3i32,
        }
    }

    /// The filter that a selector number names, if it names one.
    pub open spec fn of_number(value: i32) -> Option<Filter> {
        if value == 0 {
            Some(Filter::Unspecified)
        } else if value == 1 {
            Some(Filter::Oceanic)
        } else if value == 2 {
            Some(Filter::Islands)
        } else if value == 3 {
            Some(Filter::Marine)
        } else {
            None
        }
    }

    /// The name under which the filter is known, or nothing for `Unspecified`.
    pub open spec fn name_of(self) -> Option<Seq<char>> {
        match self {
            Filter::Unspecified => None,
            Filter::Oceanic => Some("oceanic"@),
            Filter::Islands => Some("islands"@),
            Filter::Marine => Some("marine"@),
        }
    }

    pub fn number(self) -> (n: i32)
        ensures
            n == self.number_of(),
            Filter::of_number(n) == Some(self),
    {
        match self {
            Filter::Unspecified => 0,
            Filter::Oceanic => 1,
            Filter::Islands => 2,
            Filter::Marine => 3,
        }
    }

    pub fn from_i32(value: i32) -> (r: Option<Filter>)
        ensures
            r == Filter::of_number(value),
            r matches Some(f) ==> f.number_of() == value,
    {
        match value {
            0 => Some(Filter::Unspecified),
            1 => Some(Filter::Oceanic),
            2 => Some(Filter::Islands),
            3 => Some(Filter::Marine),
            _ => None,
        }
    }

    pub fn to_str(self) -> (r: Option<&'static str>)
        ensures
            match r {
                Some(s) => self.name_of() == Some(s@),
                None => self.name_of() is None,
            },
    {
        match self {
            Filter::Unspecified => None,
            Filter::Oceanic => Some("oceanic"),
            Filter::Islands => Some("islands"),
            Filter::Marine => Some("marine"),
        }
    }
}

} // verus!
