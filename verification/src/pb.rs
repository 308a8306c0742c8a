//! The operation set and the pipeline that orders it.

pub mod filter;
pub mod ops;
pub mod parse;
pub mod resize;
pub mod token;
pub mod wire;

pub use ops::{ops_of, ImageSpec, Op, Spec};
pub use token::TokenDecodeError;
