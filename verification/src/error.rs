//! The library's error taxonomy, with a verified human-readable rendering.

use vstd::prelude::*;

verus! {

/// Everything that can go wrong around an analysis: I/O, the external
/// probe/transcode tools, bad paths, missing inputs, hardware, standards
/// loading, and the cloud-audit path. The pure core itself never fails;
/// these originate at the I/O boundary and are carried through the batch
/// trackers.
#[derive(Clone, Debug)]
pub enum VideoError {
    Io(String),
    FFmpeg(String),
    InvalidPath(String),
    NoVideosFound,
    HWAccel(String),
    Compliance(String),
    Standards(String),
    GoogleDrive(String),
    Auth(String),
}

/// The rendering of `e`: a fixed per-variant prefix followed by the carried
/// detail text.
pub open spec fn spec_message(e: &VideoError) -> Seq<char> {
    match e {
        VideoError::Io(m) => "IO error: "@ + m@,
        VideoError::FFmpeg(m) => "FFmpeg error: "@ + m@,
        VideoError::InvalidPath(m) => "Invalid path: "@ + m@,
        VideoError::NoVideosFound => "No video files found in directory"@,
        VideoError::HWAccel(m) => "Hardware acceleration error: "@ + m@,
        VideoError::Compliance(m) => "Compliance error: "@ + m@,
        VideoError::Standards(m) => "Standards parsing error: "@ + m@,
        VideoError::GoogleDrive(m) => "Google Drive error: "@ + m@,
        VideoError::Auth(m) => "Authentication error: "@ + m@,
    }
}

impl VideoError {
    /// The human-readable description of this error.
    pub fn message(&self) -> (r: String)
        ensures
            r@ == spec_message(self),
    {
        match self {
            VideoError::Io(m) => {
                let mut r = String::from_str("IO error: ");
                r.append(m.as_str());
                r
            },
            VideoError::FFmpeg(m) => {
                let mut r = String::from_str("FFmpeg error: ");
                r.append(m.as_str());
                r
            },
            VideoError::InvalidPath(m) => {
                let mut r = String::from_str("Invalid path: ");
                r.append(m.as_str());
                r
            },
            VideoError::NoVideosFound => String::from_str("No video files found in directory"),
            VideoError::HWAccel(m) => {
                let mut r = String::from_str("Hardware acceleration error: ");
                r.append(m.as_str());
                r
            },
            VideoError::Compliance(m) => {
                let mut r = String::from_str("Compliance error: ");
                r.append(m.as_str());
                r
            },
            VideoError::Standards(m) => {
                let mut r = String::from_str("Standards parsing error: ");
                r.append(m.as_str());
                r
            },
            VideoError::GoogleDrive(m) => {
                let mut r = String::from_str("Google Drive error: ");
                r.append(m.as_str());
                r
            },
            VideoError::Auth(m) => {
                let mut r = String::from_str("Authentication error: ");
                r.append(m.as_str());
                r
            },
        }
    }
}

} // verus!
