//! Coefficient reconstruction for a block-transform still-image decoder:
//! dequantization of low- and high-frequency coefficients, chroma-from-luma
//! prediction, the low-frequency seed of large transform blocks, chroma
//! upsampling and the final colour transform.
//!
//! The stages are written over an open sample type.  What happens to the
//! cells of a plane (which cell is read, which is written, in which order,
//! and what is refused) is fixed and proved here; the arithmetic on a single
//! sample is handed in by the caller as a function.
pub mod cfl;
pub mod channel;
pub mod crop;
pub mod error;
pub mod grid;
pub mod hf;
pub mod icc;
pub mod lf;
pub mod llf;
pub mod plane;
pub mod shift;
pub mod transform;
pub mod ycbcr;

pub use cfl::{chroma_from_luma_hf, chroma_from_luma_lf};
pub use channel::Channel;
pub use crop::{CropError, CropInfo};
pub use error::Error;
pub use hf::{dequant_hf_varblock, QuantClass};
pub use icc::{get_icc_ctx, IccStream};
pub use lf::{dequant_lf, Window, Xyb};
pub use llf::llf_from_lf;
pub use plane::{Plane, Region};
pub use transform::TransformType;
pub use ycbcr::{perform_inverse_ycbcr, ycbcr_upsample};
