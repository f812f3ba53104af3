use mp4converter::{ComplianceResult, ComplianceViolation, ContentType, ViolationCategory,
    ViolationSeverity, build_compliance_args, build_optimized_args, convert_video_args,
    determine_target_resolution, generate_audio_fixes, generate_compliance_output_filename,
    generate_optimized_output_filename, generate_optimized_video_fixes, generate_video_fixes,
    get_hw_decode_codec, should_use_hw_decode};

fn violation(category: ViolationCategory, expected: &str) -> ComplianceViolation {
    ComplianceViolation {
        severity: ViolationSeverity::Critical,
        category,
        description: "test".to_string(),
        current_value: "current".to_string(),
        expected_value: expected.to_string(),
    }
}

fn result_with(violations: Vec<ComplianceViolation>) -> ComplianceResult {
    ComplianceResult {
        is_compliant: violations.is_empty(),
        score: 50,
        violations,
        recommendations: vec![],
    }
}

#[test]
fn lib_test_hw_decode_codec_mapping() {
    assert_eq!(get_hw_decode_codec("h264"), "h264_cuvid");
    assert_eq!(get_hw_decode_codec("av1"), "av1_cuvid");
    assert_eq!(get_hw_decode_codec("unknown"), "");
}

#[test]
fn main_test_test_hw_decode_codec_mapping() {
    assert_eq!(get_hw_decode_codec("h264"), "h264_cuvid");
    assert_eq!(get_hw_decode_codec("av1"), "av1_cuvid");
    assert_eq!(get_hw_decode_codec("unknown"), "");
}

#[test]
fn test_hardware_decode_all_codecs() {
    let test_cases = [
        ("h264", "h264_cuvid"),
        ("hevc", "hevc_cuvid"),
        ("av1", "av1_cuvid"),
        ("vp8", "vp8_cuvid"),
        ("vp9", "vp9_cuvid"),
        ("mpeg4", ""),
        ("xvid", ""),
        ("", ""),
    ];

    for (input, expected) in test_cases {
        assert_eq!(get_hw_decode_codec(input), expected);
    }
}

#[test]
fn test_should_use_hw_decode() {
    // Resolution violations request hardware decode even when few.
    let r = result_with(vec![violation(ViolationCategory::Resolution, "x")]);
    assert!(should_use_hw_decode(&r));

    // A single codec violation alone does not.
    let r = result_with(vec![violation(ViolationCategory::VideoCodec, "x")]);
    assert!(!should_use_hw_decode(&r));

    // More than two violations always do.
    let r = result_with(vec![
        violation(ViolationCategory::VideoCodec, "x"),
        violation(ViolationCategory::Container, "x"),
        violation(ViolationCategory::AudioCodec, "x"),
    ]);
    assert!(should_use_hw_decode(&r));
}

#[test]
fn test_determine_target_resolution() {
    let r = result_with(vec![violation(ViolationCategory::Resolution, "Preferred: 1280x720")]);
    assert_eq!(determine_target_resolution(&r), Some("1280:720".to_string()));

    let r = result_with(vec![violation(
        ViolationCategory::Resolution,
        "Preferred: 1280x720, 1920x1080",
    )]);
    assert_eq!(determine_target_resolution(&r), Some("1920:1080".to_string()));

    // No resolution violation at all: the 1080p default.
    let r = result_with(vec![violation(ViolationCategory::VideoCodec, "h264")]);
    assert_eq!(determine_target_resolution(&r), Some("1920:1080".to_string()));
}

#[test]
fn test_generate_video_fixes_copy() {
    let r = result_with(vec![violation(ViolationCategory::AudioCodec, "aac")]);
    assert_eq!(generate_video_fixes(&r), vec!["-c:v".to_string(), "copy".to_string()]);
}

#[test]
fn test_generate_video_fixes_full() {
    let r = result_with(vec![
        violation(ViolationCategory::VideoCodec, "h264"),
        violation(ViolationCategory::Resolution, "Preferred: 1920x1080"),
        violation(ViolationCategory::HDR, "Rec. 709 (SDR)"),
    ]);
    let args = generate_video_fixes(&r);
    let expected: Vec<String> = [
        "-c:v", "h264_nvenc", "-preset", "p7", "-cq", "18", "-profile:v", "high", "-pix_fmt",
        "yuv420p", "-vf", "scale=1920:1080", "-colorspace", "bt709", "-color_primaries", "bt709",
        "-color_trc", "bt709",
    ].iter().map(|s| s.to_string()).collect();
    assert_eq!(args, expected);
}

#[test]
fn test_generate_audio_fixes() {
    let r = result_with(vec![violation(ViolationCategory::AudioCodec, "pcm")]);
    let expected: Vec<String> = ["-c:a", "pcm_s24le", "-ar", "48000", "-ac", "2"]
        .iter().map(|s| s.to_string()).collect();
    assert_eq!(generate_audio_fixes(&r), expected);

    let r = result_with(vec![violation(ViolationCategory::VideoCodec, "h264")]);
    assert_eq!(generate_audio_fixes(&r), vec!["-c:a".to_string(), "copy".to_string()]);
}

#[test]
fn test_optimized_video_fixes_screen_capture() {
    let r = result_with(vec![violation(ViolationCategory::VideoCodec, "h264")]);
    let m = mp4converter::VideoMetadata {
        codec: "mpeg4".to_string(),
        resolution: "1920x1080".to_string(),
        duration_centis: 0,
        bitrate: 0,
        size: 0,
        fps_millis: 30_000,
        audio_codec: "aac".to_string(),
        audio_sample_rate: 48000,
        audio_bitrate: 0,
        container: "mp4".to_string(),
        profile: "high".to_string(),
        color_space: "bt709".to_string(),
    };
    let args = generate_optimized_video_fixes(&r, &ContentType::ScreenCapture, &m);
    let expected: Vec<String> = [
        "-c:v", "h264_nvenc", "-profile:v", "high", "-pix_fmt", "yuv420p", "-preset", "p7",
        "-cq", "15", "-temporal-aq", "1", "-rc-lookahead", "32",
    ].iter().map(|s| s.to_string()).collect();
    assert_eq!(args, expected);

    let live = generate_optimized_video_fixes(&r, &ContentType::LiveAction, &m);
    assert!(live.contains(&"p5".to_string()));
    assert!(live.contains(&"18".to_string()));
    let anim = generate_optimized_video_fixes(&r, &ContentType::Animation, &m);
    assert!(anim.contains(&"p6".to_string()));
    assert!(anim.contains(&"16".to_string()));
    let unknown = generate_optimized_video_fixes(&r, &ContentType::Unknown, &m);
    assert!(unknown.contains(&"p6".to_string()));
    assert!(unknown.contains(&"18".to_string()));
}

#[test]
fn test_compliance_output_filename() {
    let r = result_with(vec![
        violation(ViolationCategory::Resolution, "Preferred: 1920x1080"),
        violation(ViolationCategory::VideoCodec, "h264"),
    ]);
    assert_eq!(
        generate_compliance_output_filename("movie.mkv", &r),
        "movie.compliant.scaled.h264.mkv"
    );

    let r = result_with(vec![violation(ViolationCategory::AudioCodec, "pcm")]);
    assert_eq!(generate_compliance_output_filename("clip.mp4", &r), "clip.compliant.aac.mp4");

    // No extension: mp4 is supplied.
    let r = result_with(vec![violation(ViolationCategory::HDR, "Rec. 709 (SDR)")]);
    assert_eq!(generate_compliance_output_filename("raw", &r), "raw.compliant.rec709.mp4");
}

#[test]
fn test_original_filename_preservation() {
    let r = result_with(vec![violation(ViolationCategory::VideoCodec, "h264")]);
    let name = generate_optimized_output_filename("test_video.mp4", &r, &ContentType::ScreenCapture);
    assert_eq!(name, "test_video.mp4");
}

#[test]
fn test_build_compliance_args_shape() {
    let r = result_with(vec![violation(ViolationCategory::AudioCodec, "pcm")]);
    let args = build_compliance_args("in.mp4", "out/in.mp4", &r);
    assert_eq!(args[0], "-i");
    assert_eq!(args[1], "in.mp4");
    // One audio violation: video stream is copied, audio re-encoded.
    assert!(args.contains(&"copy".to_string()));
    assert!(args.contains(&"pcm_s24le".to_string()));
    assert!(!args.contains(&"-hwaccel".to_string()));
    assert_eq!(args[args.len() - 4..], ["-movflags", "+faststart", "-y", "out/in.mp4"]
        .map(|s| s.to_string()));
}

#[test]
fn test_build_optimized_args_shape() {
    let r = result_with(vec![
        violation(ViolationCategory::Resolution, "Preferred: 1920x1080"),
    ]);
    let m = mp4converter::VideoMetadata {
        codec: "h264".to_string(),
        resolution: "640x480".to_string(),
        duration_centis: 0,
        bitrate: 0,
        size: 0,
        fps_millis: 30_000,
        audio_codec: "aac".to_string(),
        audio_sample_rate: 48000,
        audio_bitrate: 0,
        container: "mp4".to_string(),
        profile: "high".to_string(),
        color_space: "bt709".to_string(),
    };
    let args = build_optimized_args("in.mp4", "out.mp4", &r, &ContentType::LiveAction, &m);
    assert_eq!(args[0], "-i");
    // A resolution violation requests hardware decode and a scale filter.
    assert!(args.contains(&"-hwaccel".to_string()));
    assert!(args.contains(&"cuda".to_string()));
    assert!(args.contains(&"scale=1920:1080".to_string()));
    assert_eq!(args[args.len() - 1], "out.mp4");
}

#[test]
fn test_convert_video_args() {
    let args = convert_video_args("a.avi", "H264/a.avi");
    let expected: Vec<String> = [
        "-i", "a.avi", "-c:v", "h264_nvenc", "-preset", "p7", "-c:a", "aac", "-b:a", "320k",
        "-y", "H264/a.avi",
    ].iter().map(|s| s.to_string()).collect();
    assert_eq!(args, expected);
}

#[test]
fn test_leading_dot_name() {
    // A name whose only dot leads it is all stem with no extension, so the
    // default mp4 extension applies after the suffixes.
    let r = result_with(vec![violation(ViolationCategory::HDR, "Rec. 709 (SDR)")]);
    assert_eq!(generate_compliance_output_filename(".hidden", &r), ".hidden.compliant.rec709.mp4");
}
