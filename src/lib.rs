//! Decoder for Caesar diagnostic containers (CBF files): a random-access reader, the
//! presence-mask field codec, and the walk from stub header to ECU records.

pub mod raf;
pub mod caesar;
