//! The facts that come with the library, and the functions that make them.

pub mod and;
pub mod brute;
pub mod consecutive_int;
pub mod constant;
pub mod either;
pub mod eq;
pub mod in_range;
pub mod in_slice;
pub mod lens;
pub mod mapped;
pub mod not;
pub mod or;
pub mod prism;
pub mod same;
pub mod seq;
pub mod step;
