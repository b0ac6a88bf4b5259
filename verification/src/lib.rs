//! Verified core of an image-upload optimisation service.
//!
//! The library decodes a multipart request body into named parts, plans a
//! bounding-box resize for each decodable image, re-encodes it, and renders a
//! JSON report of the per-file savings.  Image decoding, resampling and
//! encoding are performed by the `image` crate behind trusted wrappers; all
//! surrounding logic — the multipart grammar, the target-size arithmetic, the
//! report format and the per-request state machine — is verified.

pub mod errors;
pub mod geometry;
pub mod imaging;
pub mod multipart;
pub mod pipeline;
pub mod report;
pub mod strings;
