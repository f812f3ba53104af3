//! The delivery-standards catalog: declarative per-dimension rules that the
//! compliance engine evaluates an asset against. Built once, never mutated.

use vstd::prelude::*;
use crate::error::VideoError;

verus! {

/// One named bitrate band, in kilobits per second.
#[derive(Clone, Debug)]
pub struct BitRateRange {
    pub min_kbps: u32,
    pub max_kbps: u32,
    pub content_type: String,
}

/// Video-dimension rules. Frame rates are carried as thousandths of a frame
/// per second.
#[derive(Clone, Debug)]
pub struct VideoStandards {
    pub preferred_resolutions: Vec<String>,
    pub acceptable_resolutions: Vec<String>,
    pub preferred_codecs: Vec<String>,
    pub preferred_frame_rates_millis: Vec<u64>,
    pub bitrate_ranges: Vec<(String, BitRateRange)>,
    pub containers: Vec<String>,
    pub unsupported_containers: Vec<String>,
    pub profiles: Vec<String>,
}

/// Audio-dimension rules.
#[derive(Clone, Debug)]
pub struct AudioStandards {
    pub preferred_codecs: Vec<String>,
    pub acceptable_codecs: Vec<String>,
    pub sample_rates: Vec<u32>,
    pub bit_depths: Vec<u8>,
    pub bitrate_ranges: Vec<(String, u32)>,
    pub channels: Vec<String>,
}

/// Colour and quality rules, including the HDR restriction terms.
#[derive(Clone, Debug)]
pub struct QualityStandards {
    pub color_spaces: Vec<String>,
    pub unsupported_color_spaces: Vec<String>,
    pub keyframe_interval_min: u32,
    pub chroma_subsampling: Vec<String>,
    pub hdr_restrictions: Vec<String>,
}

/// The whole catalog.
#[derive(Clone, Debug)]
pub struct ContentStandards {
    pub video: VideoStandards,
    pub audio: AudioStandards,
    pub quality: QualityStandards,
}

/// The views of a sequence of strings.
pub open spec fn strs(v: Seq<String>) -> Seq<Seq<char>> {
    v.map_values(|s: String| s@)
}

/// `c` is exactly the built-in default delivery catalog.
pub open spec fn is_default_standards(c: &ContentStandards) -> bool {
    &&& strs(c.video.preferred_resolutions@) =~= seq![
        "1280x720"@,
        "1920x1080"@,
        "720x1280"@,
        "1080x1920"@,
    ]
    &&& strs(c.video.acceptable_resolutions@) =~= seq![
        "1360x768"@,
        "1280x800"@,
        "1600x900"@,
        "1440x900"@,
        "1680x1048"@,
        "1440x810"@,
        "2160x3840"@,
    ]
    &&& strs(c.video.preferred_codecs@) =~= seq!["h264"@, "libx264"@]
    &&& c.video.preferred_frame_rates_millis@ =~= seq![
        15000u64,
        23976u64,
        24000u64,
        25000u64,
        29970u64,
        30000u64,
    ]
    &&& c.video.bitrate_ranges@.len() == 2
    &&& c.video.bitrate_ranges@[0].0@ == "screen_capture"@
    &&& c.video.bitrate_ranges@[0].1.min_kbps == 6000
    &&& c.video.bitrate_ranges@[0].1.max_kbps == 8000
    &&& c.video.bitrate_ranges@[0].1.content_type@ == "Screen Capture"@
    &&& c.video.bitrate_ranges@[1].0@ == "live_action"@
    &&& c.video.bitrate_ranges@[1].1.min_kbps == 8000
    &&& c.video.bitrate_ranges@[1].1.max_kbps == 15000
    &&& c.video.bitrate_ranges@[1].1.content_type@ == "Live Action"@
    &&& strs(c.video.containers@) =~= seq!["mp4"@, "mov"@]
    &&& strs(c.video.unsupported_containers@) =~= seq!["mkv"@]
    &&& strs(c.video.profiles@) =~= seq!["main"@, "high"@]
    &&& strs(c.audio.preferred_codecs@) =~= seq!["pcm"@, "alac"@]
    &&& strs(c.audio.acceptable_codecs@) =~= seq!["aac"@]
    &&& c.audio.sample_rates@ =~= seq![44100u32, 48000u32]
    &&& c.audio.bit_depths@ =~= seq![16u8, 24u8]
    &&& c.audio.bitrate_ranges@.len() == 1
    &&& c.audio.bitrate_ranges@[0].0@ == "aac"@
    &&& c.audio.bitrate_ranges@[0].1 == 320u32
    &&& strs(c.audio.channels@) =~= seq!["stereo"@, "2.0"@]
    &&& strs(c.quality.color_spaces@) =~= seq!["rec709"@, "bt709"@]
    &&& strs(c.quality.unsupported_color_spaces@) =~= seq!["bt2020"@, "dci-p3"@, "rec2020"@]
    &&& c.quality.keyframe_interval_min == 2
    &&& strs(c.quality.chroma_subsampling@) =~= seq!["4:2:0"@, "4:2:2"@]
    &&& strs(c.quality.hdr_restrictions@) =~= seq!["hdr10"@, "hdr10+"@, "dolby_vision"@, "hlg"@]
}

impl ContentStandards {
    /// Builds the default delivery catalog; never fails.
    pub fn load_default() -> (r: Result<ContentStandards, VideoError>)
        ensures
            r matches Ok(c) && is_default_standards(&c),
    {
        let video = VideoStandards {
            preferred_resolutions: vec![
                String::from_str("1280x720"),
                String::from_str("1920x1080"),
                String::from_str("720x1280"),
                String::from_str("1080x1920"),
            ],
            acceptable_resolutions: vec![
                String::from_str("1360x768"),
                String::from_str("1280x800"),
                String::from_str("1600x900"),
                String::from_str("1440x900"),
                String::from_str("1680x1048"),
                String::from_str("1440x810"),
                String::from_str("2160x3840"),
            ],
            preferred_codecs: vec![String::from_str("h264"), String::from_str("libx264")],
            preferred_frame_rates_millis: vec![
                15000u64,
                23976u64,
                24000u64,
                25000u64,
                29970u64,
                30000u64,
            ],
            bitrate_ranges: vec![
                (
                    String::from_str("screen_capture"),
                    BitRateRange {
                        min_kbps: 6000,
                        max_kbps: 8000,
                        content_type: String::from_str("Screen Capture"),
                    },
                ),
                (
                    String::from_str("live_action"),
                    BitRateRange {
                        min_kbps: 8000,
                        max_kbps: 15000,
                        content_type: String::from_str("Live Action"),
                    },
                ),
            ],
            containers: vec![String::from_str("mp4"), String::from_str("mov")],
            unsupported_containers: vec![String::from_str("mkv")],
            profiles: vec![String::from_str("main"), String::from_str("high")],
        };

        let audio = AudioStandards {
            preferred_codecs: vec![String::from_str("pcm"), String::from_str("alac")],
            acceptable_codecs: vec![String::from_str("aac")],
            sample_rates: vec![44100u32, 48000u32],
            bit_depths: vec![16u8, 24u8],
            bitrate_ranges: vec![(String::from_str("aac"), 320u32)],
            channels: vec![String::from_str("stereo"), String::from_str("2.0")],
        };

        let quality = QualityStandards {
            color_spaces: vec![String::from_str("rec709"), String::from_str("bt709")],
            unsupported_color_spaces: vec![
                String::from_str("bt2020"),
                String::from_str("dci-p3"),
                String::from_str("rec2020"),
            ],
            keyframe_interval_min: 2,
            chroma_subsampling: vec![String::from_str("4:2:0"), String::from_str("4:2:2")],
            hdr_restrictions: vec![
                String::from_str("hdr10"),
                String::from_str("hdr10+"),
                String::from_str("dolby_vision"),
                String::from_str("hlg"),
            ],
        };

        Ok(ContentStandards { video, audio, quality })
    }
}

} // verus!
