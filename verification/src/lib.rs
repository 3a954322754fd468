//! Division-free integer base-10 logarithms for unsigned machine integers.

pub mod binary;
pub mod decimal;
pub mod guided;
pub mod packed;
pub mod tables;

pub use guided::log10_floor;
pub use packed::log10_u32;
