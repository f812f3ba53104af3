//! The remediation planner: turns a non-compliant analysis, a content
//! category and the asset's metadata into an ordered list of transcode
//! directives, plus the two output-naming policies.
//!
//! Naming: the basic path appends a `.compliant` marker with one suffix per
//! violated dimension; the content-aware path preserves the original file
//! name. Both are kept, as alternate explicit policies.

use vstd::prelude::*;
use crate::classify::ContentType;
use crate::engine::{ComplianceResult, ComplianceViolation, ViolationCategory};
use crate::text::{contains_str, last_dot, spec_contains, spec_last_dot, str_eq};

verus! {

/// Views of the strings in `v`.
pub open spec fn arg_views(v: Seq<String>) -> Seq<Seq<char>> {
    v.map_values(|s: String| s@)
}

/// Some violation in `vs` belongs to category `cat`.
pub open spec fn has_category(vs: Seq<ComplianceViolation>, cat: ViolationCategory) -> bool {
    exists|i: int| 0 <= i < vs.len() && (#[trigger] vs[i]).category == cat
}

/// Whether some violation in `v` belongs to category `cat`.
fn any_category(v: &Vec<ComplianceViolation>, cat: ViolationCategory) -> (r: bool)
    ensures
        r == has_category(v@, cat),
{
    let mut i: usize = 0;
    while i < v.len()
        invariant
            i <= v@.len(),
            forall|j: int| 0 <= j < i ==> (#[trigger] v@[j]).category != cat,
        decreases v@.len() - i,
    {
        if v[i].category == cat {
            return true;
        }
        i += 1;
    }
    false
}

/// The hardware decoder name matching an input codec, or the empty string
/// when none applies.
pub open spec fn spec_hw_decode_codec(codec: Seq<char>) -> Seq<char> {
    if codec == "h264"@ {
        "h264_cuvid"@
    } else if codec == "hevc"@ {
        "hevc_cuvid"@
    } else if codec == "av1"@ {
        "av1_cuvid"@
    } else if codec == "vp8"@ {
        "vp8_cuvid"@
    } else if codec == "vp9"@ {
        "vp9_cuvid"@
    } else {
        ""@
    }
}

/// The CUDA decoder for `input_codec`, or `""` when the codec has none.
pub fn get_hw_decode_codec(input_codec: &str) -> (r: &str)
    ensures
        r@ == spec_hw_decode_codec(input_codec@),
{
    if str_eq(input_codec, "h264") {
        "h264_cuvid"
    } else if str_eq(input_codec, "hevc") {
        "hevc_cuvid"
    } else if str_eq(input_codec, "av1") {
        "av1_cuvid"
    } else if str_eq(input_codec, "vp8") {
        "vp8_cuvid"
    } else if str_eq(input_codec, "vp9") {
        "vp9_cuvid"
    } else {
        ""
    }
}

/// Hardware decode is requested when more than two violations were found or
/// when any violation concerns resolution or colour.
pub open spec fn spec_should_hw_decode(vs: Seq<ComplianceViolation>) -> bool {
    vs.len() > 2 || has_category(vs, ViolationCategory::Resolution) || has_category(
        vs,
        ViolationCategory::ColorSpace,
    ) || has_category(vs, ViolationCategory::HDR)
}

/// Whether the remediation run should ask for hardware decoding.
pub fn should_use_hw_decode(compliance_result: &ComplianceResult) -> (r: bool)
    ensures
        r == spec_should_hw_decode(compliance_result.violations@),
{
    compliance_result.violations.len() > 2 || any_category(
        &compliance_result.violations,
        ViolationCategory::Resolution,
    ) || any_category(&compliance_result.violations, ViolationCategory::ColorSpace)
        || any_category(&compliance_result.violations, ViolationCategory::HDR)
}

/// The scale target taken from the first resolution violation that names a
/// known target; 1920:1080 when none does.
pub open spec fn spec_target_resolution(vs: Seq<ComplianceViolation>) -> Seq<char>
    decreases vs.len(),
{
    if vs.len() == 0 {
        "1920:1080"@
    } else if vs[0].category == ViolationCategory::Resolution && spec_contains(
        vs[0].expected_value@,
        "1920x1080"@,
    ) {
        "1920:1080"@
    } else if vs[0].category == ViolationCategory::Resolution && spec_contains(
        vs[0].expected_value@,
        "1280x720"@,
    ) {
        "1280:720"@
    } else {
        spec_target_resolution(vs.skip(1))
    }
}

/// The resolution to scale to, read from the recorded expected value of the
/// first resolution violation; defaults to 1080p.
pub fn determine_target_resolution(compliance_result: &ComplianceResult) -> (r: Option<String>)
    ensures
        r matches Some(s) && s@ == spec_target_resolution(compliance_result.violations@),
{
    let vs = &compliance_result.violations;
    let ghost whole = vs@;
    proof {
        assert(whole.skip(0) =~= whole);
    }
    let mut i: usize = 0;
    while i < vs.len()
        invariant
            i <= vs@.len(),
            vs@ == whole,
            whole == compliance_result.violations@,
            spec_target_resolution(whole) == spec_target_resolution(whole.skip(i as int)),
        decreases vs@.len() - i,
    {
        proof {
            assert(whole.skip(i as int)[0] == whole[i as int]);
        }
        if vs[i].category == ViolationCategory::Resolution {
            if contains_str(vs[i].expected_value.as_str(), "1920x1080") {
                proof {
                    assert(spec_target_resolution(whole.skip(i as int)) == "1920:1080"@);
                }
                return Some(String::from_str("1920:1080"));
            }
            if contains_str(vs[i].expected_value.as_str(), "1280x720") {
                proof {
                    assert(spec_target_resolution(whole.skip(i as int)) == "1280:720"@);
                }
                return Some(String::from_str("1280:720"));
            }
        }
        proof {
            assert(whole.skip(i as int).skip(1) =~= whole.skip(i + 1));
        }
        i += 1;
    }
    proof {
        assert(whole.skip(i as int).len() == 0);
    }
    Some(String::from_str("1920:1080"))
}

/// The video-stream directives of the basic remediation path: re-encode at
/// fixed high quality when any codec, resolution or colour violation exists,
/// with scaling and colour normalisation as required; stream-copy otherwise.
pub open spec fn spec_video_fixes(vs: Seq<ComplianceViolation>) -> Seq<Seq<char>> {
    let needs_codec = has_category(vs, ViolationCategory::VideoCodec);
    let needs_res = has_category(vs, ViolationCategory::Resolution);
    let needs_quality = has_category(vs, ViolationCategory::ColorSpace) || has_category(
        vs,
        ViolationCategory::HDR,
    );
    if needs_codec || needs_res || needs_quality {
        seq![
            "-c:v"@,
            "h264_nvenc"@,
            "-preset"@,
            "p7"@,
            "-cq"@,
            "18"@,
            "-profile:v"@,
            "high"@,
            "-pix_fmt"@,
            "yuv420p"@,
        ] + (if needs_res {
            seq!["-vf"@, "scale="@ + spec_target_resolution(vs)]
        } else {
            Seq::empty()
        }) + (if needs_quality {
            seq![
                "-colorspace"@,
                "bt709"@,
                "-color_primaries"@,
                "bt709"@,
                "-color_trc"@,
                "bt709"@,
            ]
        } else {
            Seq::empty()
        })
    } else {
        seq!["-c:v"@, "copy"@]
    }
}

/// Video encoding arguments of the basic remediation path.
pub fn generate_video_fixes(compliance_result: &ComplianceResult) -> (r: Vec<String>)
    ensures
        arg_views(r@) == spec_video_fixes(compliance_result.violations@),
{
    let mut args: Vec<String> = Vec::new();

    let needs_codec_fix = any_category(&compliance_result.violations, ViolationCategory::VideoCodec);
    let needs_resolution_fix = any_category(
        &compliance_result.violations,
        ViolationCategory::Resolution,
    );
    let needs_quality_fix = any_category(&compliance_result.violations, ViolationCategory::ColorSpace)
        || any_category(&compliance_result.violations, ViolationCategory::HDR);

    if needs_codec_fix || needs_resolution_fix || needs_quality_fix {
        args.push(String::from_str("-c:v"));
        args.push(String::from_str("h264_nvenc"));
        args.push(String::from_str("-preset"));
        args.push(String::from_str("p7"));
        args.push(String::from_str("-cq"));
        args.push(String::from_str("18"));
        args.push(String::from_str("-profile:v"));
        args.push(String::from_str("high"));
        args.push(String::from_str("-pix_fmt"));
        args.push(String::from_str("yuv420p"));

        if needs_resolution_fix {
            let target_resolution = determine_target_resolution(compliance_result);
            if let Some(res) = target_resolution {
                args.push(String::from_str("-vf"));
                let mut scale = String::from_str("scale=");
                scale.append(res.as_str());
                args.push(scale);
            }
        }

        if needs_quality_fix {
            args.push(String::from_str("-colorspace"));
            args.push(String::from_str("bt709"));
            args.push(String::from_str("-color_primaries"));
            args.push(String::from_str("bt709"));
            args.push(String::from_str("-color_trc"));
            args.push(String::from_str("bt709"));
        }
    } else {
        args.push(String::from_str("-c:v"));
        args.push(String::from_str("copy"));
    }
    proof {
        assert(arg_views(args@) =~= spec_video_fixes(compliance_result.violations@));
    }
    args
}

/// The audio-stream directives: 24-bit PCM at 48 kHz stereo when any audio
/// violation exists, stream-copy otherwise.
pub open spec fn spec_audio_fixes(vs: Seq<ComplianceViolation>) -> Seq<Seq<char>> {
    if has_category(vs, ViolationCategory::Audio) || has_category(
        vs,
        ViolationCategory::AudioCodec,
    ) {
        seq!["-c:a"@, "pcm_s24le"@, "-ar"@, "48000"@, "-ac"@, "2"@]
    } else {
        seq!["-c:a"@, "copy"@]
    }
}

/// Audio encoding arguments for a remediation run.
pub fn generate_audio_fixes(compliance_result: &ComplianceResult) -> (r: Vec<String>)
    ensures
        arg_views(r@) == spec_audio_fixes(compliance_result.violations@),
{
    let mut args: Vec<String> = Vec::new();

    let needs_audio_fix = any_category(&compliance_result.violations, ViolationCategory::Audio)
        || any_category(&compliance_result.violations, ViolationCategory::AudioCodec);

    if needs_audio_fix {
        args.push(String::from_str("-c:a"));
        args.push(String::from_str("pcm_s24le"));
        args.push(String::from_str("-ar"));
        args.push(String::from_str("48000"));
        args.push(String::from_str("-ac"));
        args.push(String::from_str("2"));
    } else {
        args.push(String::from_str("-c:a"));
        args.push(String::from_str("copy"));
    }
    proof {
        assert(arg_views(args@) =~= spec_audio_fixes(compliance_result.violations@));
    }
    args
}

/// The per-category quality arguments of the content-aware path.
pub open spec fn spec_content_tuning(content_type: &ContentType) -> Seq<Seq<char>> {
    match content_type {
        ContentType::ScreenCapture | ContentType::Presentation => seq![
            "-preset"@,
            "p7"@,
            "-cq"@,
            "15"@,
            "-temporal-aq"@,
            "1"@,
            "-rc-lookahead"@,
            "32"@,
        ],
        ContentType::LiveAction => seq![
            "-preset"@,
            "p5"@,
            "-cq"@,
            "18"@,
            "-spatial-aq"@,
            "1"@,
            "-temporal-aq"@,
            "1"@,
        ],
        ContentType::Animation => seq!["-preset"@, "p6"@, "-cq"@, "16"@, "-aq-mode"@, "3"@],
        ContentType::Unknown => seq!["-preset"@, "p6"@, "-cq"@, "18"@],
    }
}

/// The video-stream directives of the content-aware path: the common encoder
/// base, category tuning, then scaling and colour normalisation as required;
/// stream-copy when no video dimension was violated.
pub open spec fn spec_optimized_video_fixes(
    vs: Seq<ComplianceViolation>,
    content_type: &ContentType,
) -> Seq<Seq<char>> {
    let needs_video_fix = has_category(vs, ViolationCategory::VideoCodec) || has_category(
        vs,
        ViolationCategory::Resolution,
    ) || has_category(vs, ViolationCategory::ColorSpace) || has_category(
        vs,
        ViolationCategory::HDR,
    );
    if needs_video_fix {
        seq!["-c:v"@, "h264_nvenc"@, "-profile:v"@, "high"@, "-pix_fmt"@, "yuv420p"@]
            + spec_content_tuning(content_type) + (if has_category(
            vs,
            ViolationCategory::Resolution,
        ) {
            seq!["-vf"@, "scale="@ + spec_target_resolution(vs)]
        } else {
            Seq::empty()
        }) + (if has_category(vs, ViolationCategory::ColorSpace) || has_category(
            vs,
            ViolationCategory::HDR,
        ) {
            seq![
                "-colorspace"@,
                "bt709"@,
                "-color_primaries"@,
                "bt709"@,
                "-color_trc"@,
                "bt709"@,
            ]
        } else {
            Seq::empty()
        })
    } else {
        seq!["-c:v"@, "copy"@]
    }
}

/// Content-aware video encoding arguments. The metadata parameter is part of
/// the planner's interface; the current tuning tables do not consult it.
pub fn generate_optimized_video_fixes(
    compliance_result: &ComplianceResult,
    content_type: &ContentType,
    _metadata: &crate::metadata::VideoMetadata,
) -> (r: Vec<String>)
    ensures
        arg_views(r@) == spec_optimized_video_fixes(compliance_result.violations@, content_type),
{
    let mut args: Vec<String> = Vec::new();

    let needs_video_fix = any_category(&compliance_result.violations, ViolationCategory::VideoCodec)
        || any_category(&compliance_result.violations, ViolationCategory::Resolution)
        || any_category(&compliance_result.violations, ViolationCategory::ColorSpace)
        || any_category(&compliance_result.violations, ViolationCategory::HDR);

    if needs_video_fix {
        args.push(String::from_str("-c:v"));
        args.push(String::from_str("h264_nvenc"));
        args.push(String::from_str("-profile:v"));
        args.push(String::from_str("high"));
        args.push(String::from_str("-pix_fmt"));
        args.push(String::from_str("yuv420p"));

        match content_type {
            ContentType::ScreenCapture | ContentType::Presentation => {
                args.push(String::from_str("-preset"));
                args.push(String::from_str("p7"));
                args.push(String::from_str("-cq"));
                args.push(String::from_str("15"));
                args.push(String::from_str("-temporal-aq"));
                args.push(String::from_str("1"));
                args.push(String::from_str("-rc-lookahead"));
                args.push(String::from_str("32"));
            },
            ContentType::LiveAction => {
                args.push(String::from_str("-preset"));
                args.push(String::from_str("p5"));
                args.push(String::from_str("-cq"));
                args.push(String::from_str("18"));
                args.push(String::from_str("-spatial-aq"));
                args.push(String::from_str("1"));
                args.push(String::from_str("-temporal-aq"));
                args.push(String::from_str("1"));
            },
            ContentType::Animation => {
                args.push(String::from_str("-preset"));
                args.push(String::from_str("p6"));
                args.push(String::from_str("-cq"));
                args.push(String::from_str("16"));
                args.push(String::from_str("-aq-mode"));
                args.push(String::from_str("3"));
            },
            ContentType::Unknown => {
                args.push(String::from_str("-preset"));
                args.push(String::from_str("p6"));
                args.push(String::from_str("-cq"));
                args.push(String::from_str("18"));
            },
        }

        if any_category(&compliance_result.violations, ViolationCategory::Resolution) {
            if let Some(target_res) = determine_target_resolution(compliance_result) {
                args.push(String::from_str("-vf"));
                let mut scale = String::from_str("scale=");
                scale.append(target_res.as_str());
                args.push(scale);
            }
        }

        if any_category(&compliance_result.violations, ViolationCategory::ColorSpace)
            || any_category(&compliance_result.violations, ViolationCategory::HDR) {
            args.push(String::from_str("-colorspace"));
            args.push(String::from_str("bt709"));
            args.push(String::from_str("-color_primaries"));
            args.push(String::from_str("bt709"));
            args.push(String::from_str("-color_trc"));
            args.push(String::from_str("bt709"));
        }
    } else {
        args.push(String::from_str("-c:v"));
        args.push(String::from_str("copy"));
    }
    proof {
        assert(arg_views(args@) =~= spec_optimized_video_fixes(
            compliance_result.violations@,
            content_type,
        ));
    }
    args
}


/// The verbose output name: the stem, a `.compliant` marker, one suffix per
/// violated dimension in fixed order, and the original extension (or `mp4`
/// when the name has none). The name is split at its last `'.'`; a name
/// whose only dot leads it, such as a hidden file, is all stem and has no
/// extension.
pub open spec fn spec_compliance_output_filename(
    name: Seq<char>,
    vs: Seq<ComplianceViolation>,
) -> Seq<char> {
    let d = spec_last_dot(name);
    let stem = if d >= 1 {
        name.subrange(0, d)
    } else {
        name
    };
    let ext = if d >= 1 {
        name.subrange(d + 1, name.len() as int)
    } else {
        Seq::<char>::empty()
    };
    stem + ".compliant"@ + (if has_category(vs, ViolationCategory::Resolution) {
        ".scaled"@
    } else {
        Seq::empty()
    }) + (if has_category(vs, ViolationCategory::VideoCodec) {
        ".h264"@
    } else {
        Seq::empty()
    }) + (if has_category(vs, ViolationCategory::Audio) || has_category(
        vs,
        ViolationCategory::AudioCodec,
    ) {
        ".aac"@
    } else {
        Seq::empty()
    }) + (if has_category(vs, ViolationCategory::ColorSpace) || has_category(
        vs,
        ViolationCategory::HDR,
    ) {
        ".rec709"@
    } else {
        Seq::empty()
    }) + "."@ + (if ext.len() == 0 {
        "mp4"@
    } else {
        ext
    })
}

/// Output file name of the basic remediation path, derived from the input
/// file name and the violated dimensions.
pub fn generate_compliance_output_filename(
    input_name: &str,
    compliance_result: &ComplianceResult,
) -> (r: String)
    ensures
        r@ == spec_compliance_output_filename(input_name@, compliance_result.violations@),
{
    let len = input_name.unicode_len();
    let dot = last_dot(input_name);
    let mut r: String;
    let mut ext_empty: bool;
    let mut ext: &str = "";
    match dot {
        Some(d) if d > 0 => {
            r = String::from_str(input_name.substring_char(0, d));
            ext = input_name.substring_char(d + 1, len);
            ext_empty = ext.unicode_len() == 0;
        },
        _ => {
            r = String::from_str(input_name);
            ext_empty = true;
        },
    }
    r.append(".compliant");
    if any_category(&compliance_result.violations, ViolationCategory::Resolution) {
        r.append(".scaled");
    }
    if any_category(&compliance_result.violations, ViolationCategory::VideoCodec) {
        r.append(".h264");
    }
    if any_category(&compliance_result.violations, ViolationCategory::Audio) || any_category(
        &compliance_result.violations,
        ViolationCategory::AudioCodec,
    ) {
        r.append(".aac");
    }
    if any_category(&compliance_result.violations, ViolationCategory::ColorSpace) || any_category(
        &compliance_result.violations,
        ViolationCategory::HDR,
    ) {
        r.append(".rec709");
    }
    r.append(".");
    if ext_empty {
        r.append("mp4");
    } else {
        r.append(ext);
    }
    proof {
        assert(r@ =~= spec_compliance_output_filename(
            input_name@,
            compliance_result.violations@,
        ));
    }
    r
}

/// Output file name of the content-aware remediation path: the original file
/// name, preserved unchanged.
pub fn generate_optimized_output_filename(
    input_name: &str,
    _compliance_result: &ComplianceResult,
    _content_type: &ContentType,
) -> (r: String)
    ensures
        r@ == input_name@,
{
    String::from_str(input_name)
}

/// The full transcoder argument list of the basic remediation path.
pub open spec fn spec_compliance_args(
    input: Seq<char>,
    output: Seq<char>,
    vs: Seq<ComplianceViolation>,
) -> Seq<Seq<char>> {
    seq!["-i"@, input] + (if spec_should_hw_decode(vs) {
        seq!["-hwaccel"@, "cuda"@]
    } else {
        Seq::empty()
    }) + spec_video_fixes(vs) + spec_audio_fixes(vs) + seq![
        "-movflags"@,
        "+faststart"@,
        "-y"@,
        output,
    ]
}

/// Builds the transcoder arguments of the basic remediation path for the
/// given input and output paths.
pub fn build_compliance_args(
    input_path: &str,
    output_path: &str,
    compliance_result: &ComplianceResult,
) -> (r: Vec<String>)
    ensures
        arg_views(r@) == spec_compliance_args(
            input_path@,
            output_path@,
            compliance_result.violations@,
        ),
{
    let mut args: Vec<String> = Vec::new();
    args.push(String::from_str("-i"));
    args.push(String::from_str(input_path));
    if should_use_hw_decode(compliance_result) {
        args.push(String::from_str("-hwaccel"));
        args.push(String::from_str("cuda"));
    }
    let mut video_fixes = generate_video_fixes(compliance_result);
    args.append(&mut video_fixes);
    let mut audio_fixes = generate_audio_fixes(compliance_result);
    args.append(&mut audio_fixes);
    args.push(String::from_str("-movflags"));
    args.push(String::from_str("+faststart"));
    args.push(String::from_str("-y"));
    args.push(String::from_str(output_path));
    proof {
        assert(arg_views(args@) =~= spec_compliance_args(
            input_path@,
            output_path@,
            compliance_result.violations@,
        ));
    }
    args
}

/// The full transcoder argument list of the content-aware remediation path.
pub open spec fn spec_optimized_args(
    input: Seq<char>,
    output: Seq<char>,
    vs: Seq<ComplianceViolation>,
    content_type: &ContentType,
) -> Seq<Seq<char>> {
    seq!["-i"@, input] + (if spec_should_hw_decode(vs) {
        seq!["-hwaccel"@, "cuda"@]
    } else {
        Seq::empty()
    }) + spec_optimized_video_fixes(vs, content_type) + spec_audio_fixes(vs) + seq![
        "-movflags"@,
        "+faststart"@,
        "-y"@,
        output,
    ]
}

/// Builds the transcoder arguments of the content-aware remediation path.
pub fn build_optimized_args(
    input_path: &str,
    output_path: &str,
    compliance_result: &ComplianceResult,
    content_type: &ContentType,
    metadata: &crate::metadata::VideoMetadata,
) -> (r: Vec<String>)
    ensures
        arg_views(r@) == spec_optimized_args(
            input_path@,
            output_path@,
            compliance_result.violations@,
            content_type,
        ),
{
    let mut args: Vec<String> = Vec::new();
    args.push(String::from_str("-i"));
    args.push(String::from_str(input_path));
    if should_use_hw_decode(compliance_result) {
        args.push(String::from_str("-hwaccel"));
        args.push(String::from_str("cuda"));
    }
    let mut video_fixes = generate_optimized_video_fixes(compliance_result, content_type, metadata);
    args.append(&mut video_fixes);
    let mut audio_fixes = generate_audio_fixes(compliance_result);
    args.append(&mut audio_fixes);
    args.push(String::from_str("-movflags"));
    args.push(String::from_str("+faststart"));
    args.push(String::from_str("-y"));
    args.push(String::from_str(output_path));
    proof {
        assert(arg_views(args@) =~= spec_optimized_args(
            input_path@,
            output_path@,
            compliance_result.violations@,
            content_type,
        ));
    }
    args
}

/// The fixed argument list of the legacy basic conversion.
pub fn convert_video_args(input_path: &str, output_path: &str) -> (r: Vec<String>)
    ensures
        arg_views(r@) == seq![
            "-i"@,
            input_path@,
            "-c:v"@,
            "h264_nvenc"@,
            "-preset"@,
            "p7"@,
            "-c:a"@,
            "aac"@,
            "-b:a"@,
            "320k"@,
            "-y"@,
            output_path@,
        ],
{
    let mut args: Vec<String> = Vec::new();
    args.push(String::from_str("-i"));
    args.push(String::from_str(input_path));
    args.push(String::from_str("-c:v"));
    args.push(String::from_str("h264_nvenc"));
    args.push(String::from_str("-preset"));
    args.push(String::from_str("p7"));
    args.push(String::from_str("-c:a"));
    args.push(String::from_str("aac"));
    args.push(String::from_str("-b:a"));
    args.push(String::from_str("320k"));
    args.push(String::from_str("-y"));
    args.push(String::from_str(output_path));
    proof {
        assert(arg_views(args@) =~= seq![
            "-i"@,
            input_path@,
            "-c:v"@,
            "h264_nvenc"@,
            "-preset"@,
            "p7"@,
            "-c:a"@,
            "aac"@,
            "-b:a"@,
            "320k"@,
            "-y"@,
            output_path@,
        ]);
    }
    args
}

} // verus!
