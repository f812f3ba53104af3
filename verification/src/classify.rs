//! The content classifier: a fixed-order heuristic cascade from an asset's
//! display name and metadata to a content category. The category only tunes
//! remediation parameters; it never takes part in compliance scoring.

use vstd::prelude::*;
use crate::metadata::VideoMetadata;
use crate::text::{ascii_lower, contains_str, spec_contains, spec_lower, str_eq};

verus! {

/// Heuristic content category of an asset.
#[derive(Clone, Debug, PartialEq, Eq, Structural)]
pub enum ContentType {
    ScreenCapture,
    LiveAction,
    Animation,
    Presentation,
    Unknown,
}

/// The classification cascade, first matching rule wins: name terms for
/// screen capture, then presentation, then animation; then frame-rate
/// thresholds; then exactly 1080p at a standard rate; screen capture by
/// default.
pub open spec fn spec_classify(m: &VideoMetadata, name: Seq<char>) -> ContentType {
    let lname = spec_lower(name);
    if spec_contains(lname, "screen"@) || spec_contains(lname, "capture"@) || spec_contains(
        lname,
        "recording"@,
    ) {
        ContentType::ScreenCapture
    } else if spec_contains(lname, "presentation"@) || spec_contains(lname, "slide"@)
        || spec_contains(lname, "demo"@) {
        ContentType::Presentation
    } else if spec_contains(lname, "cartoon"@) || spec_contains(lname, "animated"@)
        || spec_contains(lname, "anime"@) {
        ContentType::Animation
    } else if m.fps_millis > 50000 {
        ContentType::LiveAction
    } else if m.fps_millis < 20000 {
        ContentType::ScreenCapture
    } else if m.resolution@ == "1920x1080"@ && 24000 <= m.fps_millis && m.fps_millis <= 30000 {
        ContentType::LiveAction
    } else {
        ContentType::ScreenCapture
    }
}

/// Classifies one asset from its metadata and its display name (the file
/// name, for a file-backed asset). Pure and total; independent of any
/// compliance result.
pub fn detect_content_type(metadata: &VideoMetadata, display_name: &str) -> (r: ContentType)
    ensures
        r == spec_classify(metadata, display_name@),
{
    let filename = ascii_lower(display_name);
    let f = filename.as_str();

    if contains_str(f, "screen") || contains_str(f, "capture") || contains_str(f, "recording") {
        return ContentType::ScreenCapture;
    }
    if contains_str(f, "presentation") || contains_str(f, "slide") || contains_str(f, "demo") {
        return ContentType::Presentation;
    }
    if contains_str(f, "cartoon") || contains_str(f, "animated") || contains_str(f, "anime") {
        return ContentType::Animation;
    }
    if metadata.fps_millis > 50000 {
        return ContentType::LiveAction;
    }
    if metadata.fps_millis < 20000 {
        return ContentType::ScreenCapture;
    }
    if str_eq(metadata.resolution.as_str(), "1920x1080") && metadata.fps_millis >= 24000
        && metadata.fps_millis <= 30000 {
        return ContentType::LiveAction;
    }
    ContentType::ScreenCapture
}

/// The bitrate table, in kilobits per second, keyed by content category and
/// resolution class.
pub open spec fn spec_optimal_bitrate(content_type: &ContentType, resolution: Seq<char>) -> u32 {
    let hd = spec_contains(resolution, "1920x1080"@);
    let sd = spec_contains(resolution, "1280x720"@);
    match content_type {
        ContentType::ScreenCapture | ContentType::Presentation => if hd {
            6000u32
        } else if sd {
            4000u32
        } else {
            3000u32
        },
        ContentType::LiveAction => if hd {
            12000u32
        } else if sd {
            8000u32
        } else {
            5000u32
        },
        ContentType::Animation => if hd {
            8000u32
        } else if sd {
            6000u32
        } else {
            4000u32
        },
        ContentType::Unknown => if hd {
            8000u32
        } else if sd {
            6000u32
        } else {
            4000u32
        },
    }
}

/// The target bitrate for an encode of the given content category at the
/// given resolution.
pub fn get_optimal_bitrate(content_type: &ContentType, resolution: &str) -> (r: u32)
    ensures
        r == spec_optimal_bitrate(content_type, resolution@),
{
    let hd = contains_str(resolution, "1920x1080");
    let sd = contains_str(resolution, "1280x720");
    match content_type {
        ContentType::ScreenCapture | ContentType::Presentation => {
            if hd {
                6000
            } else if sd {
                4000
            } else {
                3000
            }
        },
        ContentType::LiveAction => {
            if hd {
                12000
            } else if sd {
                8000
            } else {
                5000
            }
        },
        ContentType::Animation => {
            if hd {
                8000
            } else if sd {
                6000
            } else {
                4000
            }
        },
        ContentType::Unknown => {
            if hd {
                8000
            } else if sd {
                6000
            } else {
                4000
            }
        },
    }
}

} // verus!
