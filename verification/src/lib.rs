//! Two-channel wavelet filter bank for subband image coding.
//!
//! The crate decomposes 1-D signals and 2-D images into lowpass/highpass
//! subbands and reconstructs them, using symmetric boundary extension and
//! synthesis filters derived algebraically from the analysis filters.

pub mod dwt;
pub mod entropy;
pub mod numeric;
pub mod quantization;
pub mod swt;
