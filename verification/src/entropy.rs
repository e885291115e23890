//! Structure of the entropy-coded compressed stream.
//!
//! The compressed image data is a uniform structure of marker-delimited
//! segments: table specifications, headers, and entropy-coded segments. The
//! encoding and decoding of those segments is a downstream collaborator's
//! concern; this module only names the containers the transform core hands
//! over to it.

use vstd::prelude::*;

verus! {

/// An entropy-coded data segment.
#[derive(Debug)]
pub struct CompressedData {}

/// Entropy-coded image data together with its segment structure.
#[derive(Debug)]
pub struct CompressedImageData {
    pub data: CompressedData,
}

/// The interchange format: compressed data plus every table needed to
/// decode it, so that an image can cross system boundaries.
#[derive(Debug)]
pub struct InterchangeFormat {}

} // verus!
