use mp4converter::{ComplianceEngine, ComplianceResult, ComplianceViolation, ContentStandards,
    VideoMetadata, ViolationCategory, ViolationSeverity};

fn create_test_metadata() -> VideoMetadata {
    VideoMetadata {
        codec: "h264".to_string(),
        resolution: "1920x1080".to_string(),
        duration_centis: 12_000,
        bitrate: 5_000_000,
        size: 75_000_000,
        fps_millis: 30_000,
        audio_codec: "aac".to_string(),
        audio_sample_rate: 48000,
        audio_bitrate: 320_000,
        container: "mp4".to_string(),
        profile: "high".to_string(),
        color_space: "rec709".to_string(),
    }
}

#[test]
fn test_content_standards_loading() {
    let standards = ContentStandards::load_default().unwrap();

    assert!(standards.video.preferred_resolutions.contains(&"1920x1080".to_string()));
    assert!(standards.video.preferred_resolutions.contains(&"1280x720".to_string()));
    assert!(standards.video.preferred_codecs.contains(&"h264".to_string()));
    assert!(standards.video.unsupported_containers.contains(&"mkv".to_string()));

    assert!(standards.audio.preferred_codecs.contains(&"pcm".to_string()));
    assert!(standards.audio.acceptable_codecs.contains(&"aac".to_string()));

    assert!(standards.quality.color_spaces.contains(&"rec709".to_string()));
    assert!(standards.quality.hdr_restrictions.contains(&"hdr10".to_string()));
}

#[test]
fn test_compliance_engine_creation() {
    let engine = ComplianceEngine::new();
    assert!(engine.is_ok());

    let engine = engine.unwrap();
    let standards = engine.get_standards();
    assert!(standards.video.preferred_codecs.contains(&"h264".to_string()));
}

#[test]
fn test_compliance_analysis_compliant_file() {
    let engine = ComplianceEngine::new().unwrap();
    let metadata = create_test_metadata();

    let result = engine.analyze_compliance(&metadata);
    assert!(result.is_compliant);
    assert!(result.score >= 90);
    assert!(result.violations.iter().all(|v| matches!(v.severity, ViolationSeverity::Info)));
}

#[test]
fn test_compliant_with_pcm_audio() {
    let engine = ComplianceEngine::new().unwrap();
    let mut metadata = create_test_metadata();
    metadata.audio_codec = "pcm".to_string();

    let result = engine.analyze_compliance(&metadata);
    assert!(result.is_compliant);
    assert_eq!(result.score, 100);
    assert!(result.violations.is_empty());
    assert!(result.recommendations.is_empty());
}

#[test]
fn test_compliance_analysis_non_compliant_file() {
    let engine = ComplianceEngine::new().unwrap();
    let mut metadata = create_test_metadata();

    metadata.codec = "mpeg4".to_string();
    metadata.container = "mkv".to_string();
    metadata.color_space = "bt2020".to_string();

    let result = engine.analyze_compliance(&metadata);
    assert!(!result.is_compliant);
    assert!(result.score < 90);
    assert!(!result.violations.is_empty());
    assert!(!result.recommendations.is_empty());

    assert!(result.violations.iter().any(|v| matches!(v.category, ViolationCategory::VideoCodec)));
    assert!(result.violations.iter().any(|v| matches!(v.category, ViolationCategory::Container)));
    assert!(result.violations.iter().any(|v| matches!(v.category, ViolationCategory::HDR)));
}

#[test]
fn test_codec_container_hdr_violations_exact() {
    // codec, container and colour space each wrong, all else compliant:
    // exactly one violation per dimension and at least 60 points deducted.
    let engine = ComplianceEngine::new().unwrap();
    let mut metadata = create_test_metadata();
    metadata.codec = "mpeg4".to_string();
    metadata.container = "mkv".to_string();
    metadata.color_space = "bt2020".to_string();

    let result = engine.analyze_compliance(&metadata);
    let codec_count = result.violations.iter().filter(|v| {
        matches!(v.category, ViolationCategory::VideoCodec)
    }).count();
    let container_count = result.violations.iter().filter(|v| {
        matches!(v.category, ViolationCategory::Container)
    }).count();
    let hdr_count = result.violations.iter().filter(|v| {
        matches!(v.category, ViolationCategory::HDR)
    }).count();
    assert_eq!(codec_count, 1);
    assert_eq!(container_count, 1);
    assert_eq!(hdr_count, 1);
    assert!(result.score <= 40);
    assert!(!result.is_compliant);
}

#[test]
fn test_hdr_short_circuit() {
    // A colour space matching both an HDR restriction and an unsupported
    // colour space yields exactly one HDR-category violation, never two.
    let engine = ComplianceEngine::new().unwrap();
    let mut metadata = create_test_metadata();
    metadata.audio_codec = "pcm".to_string();
    metadata.color_space = "bt2020 hdr10".to_string();

    let result = engine.analyze_compliance(&metadata);
    let hdr_count = result.violations.iter().filter(|v| {
        matches!(v.category, ViolationCategory::HDR)
    }).count();
    assert_eq!(hdr_count, 1);
    // Only the HDR deduction of 30 applies, not the extra 25.
    assert_eq!(result.score, 70);
    assert!(!result.is_compliant);
}

#[test]
fn test_score_clamped_at_zero() {
    // Every rule violated at once: the raw deduction exceeds 100, and the
    // score saturates at 0 instead of wrapping.
    let engine = ComplianceEngine::new().unwrap();
    let metadata = VideoMetadata {
        codec: "wmv2".to_string(),
        resolution: "123x456".to_string(),
        duration_centis: 0,
        bitrate: 0,
        size: 0,
        fps_millis: 0,
        audio_codec: "opus".to_string(),
        audio_sample_rate: 0,
        audio_bitrate: 0,
        container: "MKV".to_string(),
        profile: "unknown".to_string(),
        color_space: "hdr10".to_string(),
    };
    let result = engine.analyze_compliance(&metadata);
    assert_eq!(result.score, 0);
    assert!(result.score <= 100);
    assert!(!result.is_compliant);
}

#[test]
fn test_resolution_acceptable_warning() {
    let engine = ComplianceEngine::new().unwrap();
    let mut metadata = create_test_metadata();
    metadata.resolution = "1360x768".to_string();
    metadata.audio_codec = "pcm".to_string();

    let result = engine.analyze_compliance(&metadata);
    assert!(!result.is_compliant);
    assert_eq!(result.score, 90);
    assert_eq!(result.violations.len(), 1);
    assert!(matches!(result.violations[0].severity, ViolationSeverity::Warning));
    assert!(matches!(result.violations[0].category, ViolationCategory::Resolution));
    // The acceptable-but-not-preferred branch adds no recommendation.
    assert!(result.recommendations.is_empty());
}

#[test]
fn test_audio_codec_unknown_warning() {
    let engine = ComplianceEngine::new().unwrap();
    let mut metadata = create_test_metadata();
    metadata.audio_codec = "opus".to_string();

    let result = engine.analyze_compliance(&metadata);
    assert!(!result.is_compliant);
    assert_eq!(result.score, 85);
    assert_eq!(result.violations.len(), 1);
    assert!(matches!(result.violations[0].severity, ViolationSeverity::Warning));
    assert_eq!(
        result.recommendations,
        vec!["Convert audio to PCM or ALAC for highest quality".to_string()]
    );
}

#[test]
fn test_violation_contents() {
    let engine = ComplianceEngine::new().unwrap();
    let mut metadata = create_test_metadata();
    metadata.codec = "mpeg4".to_string();
    metadata.audio_codec = "pcm".to_string();

    let result = engine.analyze_compliance(&metadata);
    assert_eq!(result.violations.len(), 1);
    let v = &result.violations[0];
    assert_eq!(v.description, "Video codec not in preferred list");
    assert_eq!(v.current_value, "mpeg4");
    assert_eq!(v.expected_value, "h264, libx264");
    assert_eq!(
        result.recommendations,
        vec!["Convert to H.264 codec for optimal compatibility".to_string()]
    );
    assert_eq!(result.score, 80);
}

#[test]
fn test_compliance_engine_analyze() {
    let engine = ComplianceEngine::new().expect("Failed to create engine");

    let good_metadata = VideoMetadata {
        codec: "h264".to_string(),
        resolution: "1920x1080".to_string(),
        duration_centis: 12_000,
        bitrate: 5_000_000,
        size: 75_000_000,
        fps_millis: 30_000,
        audio_codec: "pcm_s24le".to_string(),
        audio_sample_rate: 48000,
        audio_bitrate: 320_000,
        container: "mp4".to_string(),
        profile: "high".to_string(),
        color_space: "bt709".to_string(),
    };

    let result = engine.analyze_compliance(&good_metadata);
    assert!(result.score >= 85);

    let bad_metadata = VideoMetadata {
        codec: "vp9".to_string(),
        resolution: "640x480".to_string(),
        duration_centis: 12_000,
        bitrate: 500_000,
        size: 7_500_000,
        fps_millis: 15_000,
        audio_codec: "opus".to_string(),
        audio_sample_rate: 22050,
        audio_bitrate: 64_000,
        container: "webm".to_string(),
        profile: "0".to_string(),
        color_space: "unknown".to_string(),
    };

    let bad_result = engine.analyze_compliance(&bad_metadata);
    assert!(bad_result.score < 50);
    assert!(!bad_result.is_compliant);
}

#[test]
fn test_compliance_scoring() {
    let engine = ComplianceEngine::new().expect("Failed to create engine");

    let high_fps_metadata = VideoMetadata {
        codec: "h264".to_string(),
        resolution: "1920x1080".to_string(),
        duration_centis: 6_000,
        bitrate: 8_000_000,
        size: 60_000_000,
        fps_millis: 120_000,
        audio_codec: "pcm_s24le".to_string(),
        audio_sample_rate: 48000,
        audio_bitrate: 320_000,
        container: "mp4".to_string(),
        profile: "high".to_string(),
        color_space: "bt709".to_string(),
    };

    let fps_result = engine.analyze_compliance(&high_fps_metadata);
    assert!(fps_result.score < 100 || !fps_result.violations.is_empty());
}

#[test]
fn test_violation_severity_and_category() {
    let violation = ComplianceViolation {
        severity: ViolationSeverity::Critical,
        category: ViolationCategory::VideoCodec,
        description: "Test".to_string(),
        current_value: "test".to_string(),
        expected_value: "test".to_string(),
    };

    assert!(matches!(violation.severity, ViolationSeverity::Critical));
    assert!(matches!(violation.category, ViolationCategory::VideoCodec));

    let debug_str = format!("{:?}", violation);
    assert!(debug_str.contains("Critical"));
    assert!(debug_str.contains("VideoCodec"));
}

#[test]
fn test_violation_category_display() {
    assert_eq!(format!("{:?}", ViolationCategory::Resolution), "Resolution");
    assert_eq!(format!("{:?}", ViolationCategory::VideoCodec), "VideoCodec");
    assert_eq!(format!("{:?}", ViolationCategory::AudioCodec), "AudioCodec");
    assert_eq!(format!("{:?}", ViolationCategory::FrameRate), "FrameRate");
    assert_eq!(format!("{:?}", ViolationCategory::Audio), "Audio");
}

#[test]
fn test_violation_severity_ordering() {
    let critical = ViolationSeverity::Critical as u8;
    let warning = ViolationSeverity::Warning as u8;
    let info = ViolationSeverity::Info as u8;

    assert!(critical < warning);
    assert!(warning < info);
}

#[test]
fn test_result_holds_value() {
    let result = ComplianceResult {
        is_compliant: false,
        score: 75,
        violations: vec![ComplianceViolation {
            severity: ViolationSeverity::Warning,
            category: ViolationCategory::Resolution,
            description: "Resolution not preferred".to_string(),
            current_value: "1366x768".to_string(),
            expected_value: "1920x1080".to_string(),
        }],
        recommendations: vec!["Resize to 1920x1080".to_string()],
    };
    assert_eq!(result.score, 75);
    assert_eq!(result.violations.len(), 1);
}
