//! Codec binding: the leaf layer that owns the calls into the DEFLATE engine
//! and normalizes its status vocabulary into stream-level outcome classes.
//!
//! The codec speaks in numeric status codes (`0` success, `1` stream end,
//! negative codes for the error classes). [`code_to_result`] translates a code
//! into a [`StepOutcome`]; the step wrappers hand a code back untouched.
//!
//! Memory, buffer and parameter errors, and unrecognized codes, mark a broken
//! invariant of the binding or its environment. A verified library does not
//! panic, so they come back as the distinct [`StepOutcome::Fatal`] class —
//! never as a recoverable error and never silently ignored — and the
//! process-level abort that such a fault calls for belongs to the embedding
//! program.

use vstd::prelude::*;

verus! {

/// The nonzero status codes of the codec, under the names miniz gives them.
#[derive(Clone, Copy, Debug, PartialEq, Eq, Structural)]
pub enum MzError {
    StreamEnd,
    NeedDict,
    ErrNo,
    StreamError,
    DataError,
    MemError,
    BufError,
    VersionError,
    ParamError,
}

/// The outcome classes a codec step is normalized into.
#[derive(Clone, Copy, Debug, PartialEq, Eq, Structural)]
pub enum StepOutcome {
    /// The codec consumed and produced what it could; the stream is not finished.
    Continue,
    /// The codec signalled logical completion of the compressed stream.
    End,
    /// The bytes are not a valid compressed stream for the expected format.
    Malformed,
    /// Memory exhaustion, buffer misuse, bad parameters or an unknown code:
    /// an unrecoverable fault of the binding or its environment, never a
    /// property of well-formed input.
    Fatal,
}

/// Flush directives a compression step can be given.
#[derive(Clone, Copy, Debug, PartialEq, Eq, Structural)]
pub enum FlushKind {
    /// Batch: let the codec hold data back for better compression.
    NoFlush,
    /// Emit everything, trailing container metadata included, and end the stream.
    Finish,
}

/// What one codec step reports back: how many offered input bytes it consumed,
/// the output bytes it produced, and its raw status code.
pub struct StepResult {
    pub consumed: usize,
    pub out: Vec<u8>,
    pub code: i32,
}

/// The named status a nonzero code stands for, by the codec's numeric
/// vocabulary; codes outside that vocabulary have no name.
pub open spec fn spec_error_of_code(code: i32) -> Option<MzError> {
    if code == 1 {
        Some(MzError::StreamEnd)
    } else if code == 2 {
        Some(MzError::NeedDict)
    } else if code == -1 {
        Some(MzError::ErrNo)
    } else if code == -2 {
        Some(MzError::StreamError)
    } else if code == -3 {
        Some(MzError::DataError)
    } else if code == -4 {
        Some(MzError::MemError)
    } else if code == -5 {
        Some(MzError::BufError)
    } else if code == -6 {
        Some(MzError::VersionError)
    } else if code == -10000 {
        Some(MzError::ParamError)
    } else {
        None
    }
}

/// The outcome class of a status code: `0` continues; stream end ends; the
/// data-shaped errors are malformed input; memory, buffer and parameter
/// errors, and any unrecognized code, are fatal faults.
pub open spec fn spec_outcome_of_code(code: i32) -> StepOutcome {
    if code == 0 {
        StepOutcome::Continue
    } else {
        match spec_error_of_code(code) {
            Some(MzError::StreamEnd) => StepOutcome::End,
            Some(MzError::NeedDict) => StepOutcome::Malformed,
            Some(MzError::ErrNo) => StepOutcome::Malformed,
            Some(MzError::StreamError) => StepOutcome::Malformed,
            Some(MzError::DataError) => StepOutcome::Malformed,
            Some(MzError::VersionError) => StepOutcome::Malformed,
            Some(MzError::MemError) => StepOutcome::Fatal,
            Some(MzError::BufError) => StepOutcome::Fatal,
            Some(MzError::ParamError) => StepOutcome::Fatal,
            None => StepOutcome::Fatal,
        }
    }
}

/// The named status of a nonzero code, exactly as [`spec_error_of_code`] gives it.
pub fn mz_error_of_code(code: i32) -> (r: Option<MzError>)
    ensures
        r == spec_error_of_code(code),
{
    if code == 1 {
        Some(MzError::StreamEnd)
    } else if code == 2 {
        Some(MzError::NeedDict)
    } else if code == -1 {
        Some(MzError::ErrNo)
    } else if code == -2 {
        Some(MzError::StreamError)
    } else if code == -3 {
        Some(MzError::DataError)
    } else if code == -4 {
        Some(MzError::MemError)
    } else if code == -5 {
        Some(MzError::BufError)
    } else if code == -6 {
        Some(MzError::VersionError)
    } else if code == -10000 {
        Some(MzError::ParamError)
    } else {
        None
    }
}

/// Translate a raw status code into its outcome class, exactly as
/// [`spec_outcome_of_code`] gives it.
pub fn code_to_result(code: i32) -> (r: StepOutcome)
    ensures
        r == spec_outcome_of_code(code),
{
    if code == 0 {
        return StepOutcome::Continue;
    }
    match mz_error_of_code(code) {
        Some(MzError::StreamEnd) => StepOutcome::End,
        Some(MzError::NeedDict) => StepOutcome::Malformed,
        Some(MzError::ErrNo) => StepOutcome::Malformed,
        Some(MzError::StreamError) => StepOutcome::Malformed,
        Some(MzError::DataError) => StepOutcome::Malformed,
        Some(MzError::VersionError) => StepOutcome::Malformed,
        Some(MzError::MemError) => StepOutcome::Fatal,
        Some(MzError::BufError) => StepOutcome::Fatal,
        Some(MzError::ParamError) => StepOutcome::Fatal,
        None => StepOutcome::Fatal,
    }
}

/// Declares the codec's opaque decompression state,
/// `miniz_oxide::inflate::stream::InflateState`, so it can be owned and
/// carried through; nothing inside it is visible.
#[verifier::external_type_specification]
#[verifier::external_body]
pub struct ExInflateState(miniz_oxide::inflate::stream::InflateState);

/// Declares the codec's opaque compression state,
/// `miniz_oxide::deflate::core::CompressorOxide`, so it can be owned and
/// carried through; nothing inside it is visible.
#[verifier::external_type_specification]
#[verifier::external_body]
pub struct ExCompressorOxide(miniz_oxide::deflate::core::CompressorOxide);

/// Relies on `miniz_oxide::inflate::stream::InflateState::new_boxed`: allocates
/// fresh decompression state, expecting a zlib container header exactly when
/// asked to.
#[verifier::external_body]
pub(crate) fn new_inflate_state(zlib_header: bool) -> Box<
    miniz_oxide::inflate::stream::InflateState,
> {
    let format = if zlib_header {
        miniz_oxide::DataFormat::Zlib
    } else {
        miniz_oxide::DataFormat::Raw
    };
    miniz_oxide::inflate::stream::InflateState::new_boxed(format)
}

/// Relies on `miniz_oxide::deflate::core::CompressorOxide::with_params`:
/// allocates fresh compression state that writes a zlib-wrapped stream at the
/// given level (the callee clamps it to its maximum of 10).
#[verifier::external_body]
pub(crate) fn new_compressor(level: u8) -> Box<miniz_oxide::deflate::core::CompressorOxide> {
    let window_bits = miniz_oxide::MZ_DEFAULT_WINDOW_BITS as u8;
    Box::new(miniz_oxide::deflate::core::CompressorOxide::with_params(
        miniz_oxide::DataFormat::Zlib,
        level,
        miniz_oxide::deflate::core::CompressionStrategy::Default,
        window_bits,
    ))
}

/// Relies on `miniz_oxide::inflate::stream::inflate`: one decompression step
/// that consumes bytes from the front of the offered input region — at most
/// all of it — and writes at most `out_cap` output bytes. Its source returns
/// the success code `0` only when it exhausted the offered input, filled the
/// whole output buffer, or handed out buffered dictionary bytes — so a
/// success with output space and nothing produced means all input went in.
#[verifier::external_body]
pub(crate) fn inflate_step(
    state: &mut Box<miniz_oxide::inflate::stream::InflateState>,
    input: &Vec<u8>,
    from: usize,
    out_cap: usize,
) -> (r: StepResult)
    requires
        from <= input@.len(),
    ensures
        r.consumed <= input@.len() - from,
        r.out@.len() <= out_cap,
        r.code == 0 ==> (r.consumed == input@.len() - from || r.out@.len() > 0 || out_cap == 0),
{
    let mut out = vec![0u8; out_cap];
    let res = miniz_oxide::inflate::stream::inflate(
        &mut **state,
        &input[from..],
        &mut out,
        miniz_oxide::MZFlush::None,
    );
    out.truncate(res.bytes_written);
    let code = match res.status {
        Ok(s) => s as i32,
        Err(e) => e as i32,
    };
    StepResult { consumed: res.bytes_consumed, out, code }
}

/// Relies on `miniz_oxide::deflate::stream::deflate`: one compression step
/// that consumes bytes from the front of the offered input region — at most
/// all of it — and writes at most `out_cap` output bytes. Its source returns
/// the success code `0` only when it filled the whole output buffer or, under
/// no forced flush, consumed all offered input; under the finish directive a
/// code `0` always means the output was filled whole, and stream end (code
/// `1`) is never reported without the finish directive (the callee refuses a
/// later directive change and ends only on finish).
#[verifier::external_body]
pub(crate) fn deflate_step(
    state: &mut Box<miniz_oxide::deflate::core::CompressorOxide>,
    input: &Vec<u8>,
    from: usize,
    out_cap: usize,
    kind: FlushKind,
) -> (r: StepResult)
    requires
        from <= input@.len(),
    ensures
        r.consumed <= input@.len() - from,
        r.out@.len() <= out_cap,
        (kind == FlushKind::Finish && r.code == 0) ==> r.out@.len() == out_cap,
        (kind == FlushKind::NoFlush && r.code == 0) ==> (r.out@.len() == out_cap || r.consumed
            == input@.len() - from),
        kind == FlushKind::NoFlush ==> r.code != 1,
{
    let flush = match kind {
        FlushKind::NoFlush => miniz_oxide::MZFlush::None,
        FlushKind::Finish => miniz_oxide::MZFlush::Finish,
    };
    let mut out = vec![0u8; out_cap];
    let res = miniz_oxide::deflate::stream::deflate(&mut **state, &input[from..], &mut out, flush);
    out.truncate(res.bytes_written);
    let code = match res.status {
        Ok(s) => s as i32,
        Err(e) => e as i32,
    };
    StepResult { consumed: res.bytes_consumed, out, code }
}

} // verus!
