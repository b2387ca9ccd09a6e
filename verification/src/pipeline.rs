use crate::codec::decode_result;
use crate::codec::decode_rgba;
use crate::codec::encode_jpeg85;
use crate::codec::jpeg85_bytes;
use crate::transform::apply_watermark;
use crate::transform::pipeline_model;
use crate::transform::spec_target_dims;
use vstd::prelude::*;

verus! {

/// Why one source file failed: its own bytes did not decode, the
/// watermark bytes did not decode, or the composited image could not be
/// encoded.
#[derive(Clone, Copy, Debug, PartialEq, Eq, Structural)]
pub enum PipelineError {
    DecodeSource,
    DecodeWatermark,
    Encode,
}

/// Transform one source file: decode the source and the watermark, resize
/// the source to the preset chosen by its orientation, composite the
/// alpha-attenuated watermark centered over it, and encode the result as
/// a JPEG at quality 85.
pub fn process_image(source_bytes: &[u8], watermark_bytes: &[u8]) -> (r: Result<
    Vec<u8>,
    PipelineError,
>)
    ensures
        r == Err::<Vec<u8>, PipelineError>(PipelineError::DecodeSource) <==> decode_result(
            source_bytes@,
        ) is None,
        r == Err::<Vec<u8>, PipelineError>(PipelineError::DecodeWatermark) <==> (decode_result(
            source_bytes@,
        ) is Some && decode_result(watermark_bytes@) is None),
        decode_result(source_bytes@) is Some && decode_result(watermark_bytes@) is Some ==> r is Ok,
        r matches Ok(b) ==> (decode_result(source_bytes@) matches Some(s) && decode_result(
            watermark_bytes@,
        ) matches Some(w) && b@ == jpeg85_bytes(pipeline_model(s, w)) && (decode_result(b@)
            matches Some(d) && d.width == spec_target_dims(s.width as int, s.height as int).0
            && d.height == spec_target_dims(s.width as int, s.height as int).1)),
{
    let src = match decode_rgba(source_bytes) {
        Some(s) => s,
        None => {
            return Err(PipelineError::DecodeSource);
        },
    };
    let wm = match decode_rgba(watermark_bytes) {
        Some(w) => w,
        None => {
            return Err(PipelineError::DecodeWatermark);
        },
    };
    let out = apply_watermark(&src, &wm);
    proof {
        assert((out.width == 1600 && out.height == 1200) || (out.width == 1200 && out.height
            == 1600));
        assert((out.width as int) * (out.height as int) == 1920000) by (nonlinear_arith)
            requires
                (out.width == 1600 && out.height == 1200) || (out.width == 1200 && out.height
                    == 1600),
        ;
    }
    match encode_jpeg85(&out) {
        Some(b) => Ok(b),
        None => Err(PipelineError::Encode),
    }
}

} // verus!
