//! Extraction scheduling and command encoding for media containers.
//!
//! The crate models the streams of a media file as reported by an external
//! probe tool, represents requests for still images and audio clips, encodes
//! those requests into argument lists for an external decode tool, and groups
//! many requests into the fewest possible decode passes.

pub mod errors;
pub mod extraction;
pub mod fraction;
pub mod json;
pub mod lang;
pub mod schedule;
pub mod stream;
pub mod textfmt;
pub mod video;

pub use errors::MediaError;
pub use extraction::{Extraction, ExtractionSpec, Id3Metadata, Period};
pub use fraction::Fraction;
pub use lang::Lang;
pub use schedule::Pass;
pub use stream::{CodecType, Stream, StreamId};
pub use video::{ImageSourceType, Picture, Video};
