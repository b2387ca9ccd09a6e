//! Batch watermarking pipeline: resize a source image to a fixed preset
//! chosen by orientation, attenuate a watermark's alpha channel, composite
//! the watermark centered over the resized source, and encode the result
//! as a JPEG.
pub mod blend;
pub mod codec;
pub mod img;
pub mod pipeline;
pub mod transform;
