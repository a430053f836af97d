//! The extraction flow around the frame store: look the key up first, run
//! the external decoder only on a miss and with no lock held, validate what
//! the decoder produced, and write the result back best-effort. The decoder
//! itself is driven by the application; this module decides and validates.

use vstd::prelude::*;

use crate::cache::FrameCache;

verus! {

/// Why a frame could not be produced.
#[derive(Debug, PartialEq, Eq)]
pub enum ExtractError {
    /// The decoder exited with failure at the requested instant; its
    /// diagnostic text is carried along.
    DecoderFailed { instant_ms: u64, detail: String },
    /// The decoder reported success but wrote no bytes for the instant.
    EmptyOutput { instant_ms: u64 },
}

/// What the application observed from one run of the external decoder:
/// whether it exited successfully, what it wrote to its output stream, and
/// what it wrote to its error stream.
pub struct DecoderRun {
    pub success: bool,
    pub stdout: Vec<u8>,
    pub stderr: String,
}

/// The key a frame is cached under.
pub open spec fn frame_key(path: Seq<char>, modified: u64, instant_ms: u64) -> (
    Seq<char>,
    u64,
    u64,
) {
    (path, modified, instant_ms)
}

/// Validates one decoder run: failure exits and empty output are errors that
/// name the requested instant; anything else is the frame, byte for byte.
pub fn check_decoder_output(instant_ms: u64, run: &DecoderRun) -> (r: Result<Vec<u8>, ExtractError>)
    ensures
        !run.success ==> (r matches Err(e) && e matches ExtractError::DecoderFailed {
            instant_ms: im,
            detail: d,
        } && im == instant_ms && d@ == run.stderr@),
        run.success && run.stdout@.len() == 0 ==> (r matches Err(e) && e
            matches ExtractError::EmptyOutput { instant_ms: im } && im == instant_ms),
        run.success && run.stdout@.len() > 0 ==> (r matches Ok(v) && v@ == run.stdout@),
{
    if !run.success {
        Err(ExtractError::DecoderFailed { instant_ms, detail: run.stderr.clone() })
    } else if run.stdout.len() == 0 {
        Err(ExtractError::EmptyOutput { instant_ms })
    } else {
        Ok(vstd::slice::slice_to_vec(run.stdout.as_slice()))
    }
}

/// Completes an extraction after a cache miss: validates the decoder run,
/// stores a good frame under its key (best-effort), and returns the frame.
/// On a decoder error nothing is stored and the store is untouched.
pub fn finish_extraction(
    cache: &mut FrameCache,
    path: &str,
    modified: u64,
    instant_ms: u64,
    run: &DecoderRun,
) -> (r: Result<Vec<u8>, ExtractError>)
    ensures
        !run.success ==> (r matches Err(e) && e matches ExtractError::DecoderFailed {
            instant_ms: im,
            detail: d,
        } && im == instant_ms && d@ == run.stderr@),
        run.success && run.stdout@.len() == 0 ==> (r matches Err(e) && e
            matches ExtractError::EmptyOutput { instant_ms: im } && im == instant_ms),
        r is Err ==> final(cache).entries() == old(cache).entries(),
        run.success && run.stdout@.len() > 0 ==> (r matches Ok(v) && v@ == run.stdout@),
        r is Ok ==> (final(cache).entries() == old(cache).entries().insert(
            frame_key(path@, modified, instant_ms),
            run.stdout@,
        ) || final(cache).entries() == old(cache).entries()),
{
    match check_decoder_output(instant_ms, run) {
        Err(e) => Err(e),
        Ok(image) => {
            cache.store_frame(path, modified, instant_ms, image.as_slice());
            Ok(image)
        },
    }
}

/// Law behind the cache-hit flow: once a frame is stored under a key, that
/// exact key holds exactly those bytes, so a repeat request for an unchanged
/// file and the same instant is served from the store and need not run the
/// decoder again.
pub proof fn lemma_store_then_hit(
    m: Map<(Seq<char>, u64, u64), Seq<u8>>,
    path: Seq<char>,
    modified: u64,
    instant_ms: u64,
    image: Seq<u8>,
)
    ensures
        m.insert(frame_key(path, modified, instant_ms), image).contains_key(
            frame_key(path, modified, instant_ms),
        ),
        m.insert(frame_key(path, modified, instant_ms), image)[frame_key(
            path,
            modified,
            instant_ms,
        )] == image,
{
}

/// Law behind invalidation: a changed modification time changes the key, so
/// frames stored under the old fingerprint are never returned for the new
/// one — a repeat request after the file changed misses and runs the
/// decoder again.
pub proof fn lemma_changed_fingerprint_misses(
    m: Map<(Seq<char>, u64, u64), Seq<u8>>,
    path: Seq<char>,
    modified_before: u64,
    modified_after: u64,
    instant_ms: u64,
    image: Seq<u8>,
)
    requires
        modified_before != modified_after,
        !m.contains_key(frame_key(path, modified_after, instant_ms)),
    ensures
        !m.insert(frame_key(path, modified_before, instant_ms), image).contains_key(
            frame_key(path, modified_after, instant_ms),
        ),
{
}

} // verus!
