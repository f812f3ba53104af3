//! The probed technical facts about a single media asset.

use vstd::prelude::*;

verus! {

/// Technical metadata of one asset, as reported by the probe collaborator.
///
/// Durations are carried as centiseconds and frame rates as thousandths of a
/// frame per second, so that every field is an exact integer; unknown or
/// unparseable probe fields default to `0` or `"unknown"`.
#[derive(Clone, Debug)]
pub struct VideoMetadata {
    pub codec: String,
    /// `"WxH"`, e.g. `"1920x1080"`.
    pub resolution: String,
    /// Duration in centiseconds (hundredths of a second).
    pub duration_centis: u64,
    pub bitrate: u64,
    /// Size in bytes.
    pub size: u64,
    /// Frame rate in thousandths of a frame per second.
    pub fps_millis: u64,
    pub audio_codec: String,
    pub audio_sample_rate: u32,
    pub audio_bitrate: u64,
    /// Container format, lower-cased, derived from the file extension.
    pub container: String,
    pub profile: String,
    pub color_space: String,
}

} // verus!
