//! Playback-side decisions: container hints for probing, the choice of
//! audio pipeline, and the pacer's per-tick step.

use vstd::prelude::*;
use vstd::string::StringExecFns;

verus! {

/// The containers a source can declare.
#[derive(Clone, Copy, Debug, PartialEq, Eq, Structural)]
pub enum AudioContainer {
    Webm,
    Mp4,
    Ogg,
    Wav,
    Mp3,
    Flac,
    Aac,
}

/// The probe hint a MIME type maps to.
pub open spec fn mime_hint_spec(m: Seq<char>) -> Option<AudioContainer> {
    if m == "audio/webm"@ || m == "video/webm"@ {
        Some(AudioContainer::Webm)
    } else if m == "audio/mp4"@ || m == "video/mp4"@ {
        Some(AudioContainer::Mp4)
    } else if m == "audio/ogg"@ || m == "application/ogg"@ {
        Some(AudioContainer::Ogg)
    } else if m == "audio/wav"@ || m == "audio/x-wav"@ {
        Some(AudioContainer::Wav)
    } else if m == "audio/mpeg"@ || m == "audio/mp3"@ {
        Some(AudioContainer::Mp3)
    } else if m == "audio/flac"@ || m == "audio/x-flac"@ {
        Some(AudioContainer::Flac)
    } else if m == "audio/aac"@ || m == "audio/aacp"@ {
        Some(AudioContainer::Aac)
    } else {
        None
    }
}

/// Compares two texts for equality.
fn str_eq(a: &str, b: &str) -> (r: bool)
    ensures
        r == (a@ == b@),
{
    let sa = String::from_str(a);
    let sb = String::from_str(b);
    sa == sb
}

/// Maps a MIME type to the container hint the prober gets; an unknown
/// type gets none.
pub fn map_mime_to_hint(mime: &str) -> (r: Option<AudioContainer>)
    ensures
        r == mime_hint_spec(mime@),
{
    if str_eq(mime, "audio/webm") || str_eq(mime, "video/webm") {
        Some(AudioContainer::Webm)
    } else if str_eq(mime, "audio/mp4") || str_eq(mime, "video/mp4") {
        Some(AudioContainer::Mp4)
    } else if str_eq(mime, "audio/ogg") || str_eq(mime, "application/ogg") {
        Some(AudioContainer::Ogg)
    } else if str_eq(mime, "audio/wav") || str_eq(mime, "audio/x-wav") {
        Some(AudioContainer::Wav)
    } else if str_eq(mime, "audio/mpeg") || str_eq(mime, "audio/mp3") {
        Some(AudioContainer::Mp3)
    } else if str_eq(mime, "audio/flac") || str_eq(mime, "audio/x-flac") {
        Some(AudioContainer::Flac)
    } else if str_eq(mime, "audio/aac") || str_eq(mime, "audio/aacp") {
        Some(AudioContainer::Aac)
    } else {
        None
    }
}

impl AudioContainer {
    /// The file extension handed to the prober for this container.
    pub fn extension(&self) -> (r: String)
        ensures
            match *self {
                AudioContainer::Webm => r@ == "webm"@,
                AudioContainer::Mp4 => r@ == "mp4"@,
                AudioContainer::Ogg => r@ == "ogg"@,
                AudioContainer::Wav => r@ == "wav"@,
                AudioContainer::Mp3 => r@ == "mp3"@,
                AudioContainer::Flac => r@ == "flac"@,
                AudioContainer::Aac => r@ == "aac"@,
            },
    {
        match self {
            AudioContainer::Webm => String::from_str("webm"),
            AudioContainer::Mp4 => String::from_str("mp4"),
            AudioContainer::Ogg => String::from_str("ogg"),
            AudioContainer::Wav => String::from_str("wav"),
            AudioContainer::Mp3 => String::from_str("mp3"),
            AudioContainer::Flac => String::from_str("flac"),
            AudioContainer::Aac => String::from_str("aac"),
        }
    }
}

/// Which pipeline a stream runs through.
#[derive(Clone, Copy, Debug, PartialEq, Eq, Structural)]
pub enum PipelineKind {
    /// Pass WebM/Opus frames straight through the demuxer.
    WebmOpus,
    /// Buffer, decode to PCM and re-encode as Opus.
    PcmTranscode,
}

/// Chooses the pipeline for a declared format: `webm/opus` passes
/// through; anything else transcodes when a PCM decoder could be built,
/// and falls back to the demuxer when not.
pub fn choose_pipeline(format: &str, pcm_available: bool) -> (r: PipelineKind)
    ensures
        format@ == "webm/opus"@ ==> r == PipelineKind::WebmOpus,
        format@ != "webm/opus"@ && pcm_available ==> r == PipelineKind::PcmTranscode,
        format@ != "webm/opus"@ && !pcm_available ==> r == PipelineKind::WebmOpus,
{
    if str_eq(format, "webm/opus") {
        PipelineKind::WebmOpus
    } else if pcm_available {
        PipelineKind::PcmTranscode
    } else {
        PipelineKind::WebmOpus
    }
}

/// What one pacer tick observed from the source.
pub enum FrameRead {
    /// The next Opus frame.
    Frame(Vec<u8>),
    /// The source failed.
    ReadError,
    /// The source is exhausted.
    EndOfStream,
}

/// What the pacer does on a tick.
pub enum PacerDecision {
    /// Encrypt and send this frame, then wait for the next tick.
    Send(Vec<u8>),
    /// Stop pacing; the caller signals SPEAKING off and sends silence.
    Stop,
}

/// The pacer's per-tick step: a frame is sent, an error or the end of the
/// stream stops playback.
pub fn pacer_step(read: FrameRead) -> (r: PacerDecision)
    ensures
        match read {
            FrameRead::Frame(f) => r matches PacerDecision::Send(g) && g == f,
            FrameRead::ReadError => r is Stop,
            FrameRead::EndOfStream => r is Stop,
        },
{
    match read {
        FrameRead::Frame(f) => PacerDecision::Send(f),
        FrameRead::ReadError => PacerDecision::Stop,
        FrameRead::EndOfStream => PacerDecision::Stop,
    }
}

/// Whether the startup barrier gives up: the pacer polls for the voice
/// connection every 100 ms and abandons playback past fifty attempts.
pub fn barrier_exhausted(attempts: u32) -> (r: bool)
    ensures
        r == (attempts > 50),
{
    attempts > 50
}

/// A log line's severity.
#[derive(Clone, Copy, Debug, PartialEq, Eq, Structural)]
pub enum Level {
    Info,
    Warn,
    Error,
    Debug,
}

impl Level {
    /// The label a line of this severity carries.
    pub fn label(&self) -> (r: String)
        ensures
            match *self {
                Level::Info => r@ == "INFO"@,
                Level::Warn => r@ == "WARN"@,
                Level::Error => r@ == "ERROR"@,
                Level::Debug => r@ == "DEBUG"@,
            },
    {
        match self {
            Level::Info => String::from_str("INFO"),
            Level::Warn => String::from_str("WARN"),
            Level::Error => String::from_str("ERROR"),
            Level::Debug => String::from_str("DEBUG"),
        }
    }
}

} // verus!
