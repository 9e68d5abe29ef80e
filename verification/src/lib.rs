//! Build and augment recommendations for the League client: the source list,
//! the OP.GG page and build transforms, and the text helpers they rest on.

pub mod builds;
pub mod mayhem;
pub mod opgg_native;
pub mod order;
pub mod pattern;
pub mod source;
pub mod text;
