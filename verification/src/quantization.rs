//! Quantization of subband coefficients.
//!
//! Quantization and dequantization are downstream of the transform and out
//! of its scope; this module only names the table that a quantizing
//! collaborator would carry.

use vstd::prelude::*;

verus! {

/// A placeholder for the quantization-table marker segment of the
/// compressed stream.
#[derive(Debug)]
pub struct QuantizationTable {}

} // verus!
