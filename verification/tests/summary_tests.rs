use mp4converter::{BatchProcessor, ComplianceResult, ComplianceSummary, ComplianceViolation,
    ProcessingSummary, VideoError, VideoMetadata, ViolationCategory, ViolationSeverity,
    conversion_report_text};

fn create_test_metadata() -> VideoMetadata {
    VideoMetadata {
        codec: "h264".to_string(),
        resolution: "1920x1080".to_string(),
        duration_centis: 12_000,
        bitrate: 5_000_000,
        size: 75_000_000,
        fps_millis: 30_000,
        audio_codec: "aac".to_string(),
        audio_sample_rate: 48000,
        audio_bitrate: 320_000,
        container: "mp4".to_string(),
        profile: "high".to_string(),
        color_space: "rec709".to_string(),
    }
}

#[test]
fn lib_test_summary_tracking() {
    let mut summary = ProcessingSummary::new();
    let metadata = create_test_metadata();

    summary.add_video(&metadata);
    assert_eq!(summary.total_videos, 1);
    assert_eq!(summary.total_duration_centis, 12_000);
    assert_eq!(summary.total_size, 75_000_000);
    assert_eq!(summary.codec_count("h264"), 1);
    assert_eq!(summary.resolution_count("1920x1080"), 1);
}

#[test]
fn main_test_test_summary_tracking() {
    let mut summary = ProcessingSummary::new();
    let metadata = create_test_metadata();

    summary.add_video(&metadata);
    assert_eq!(summary.total_videos, 1);
    assert_eq!(summary.total_duration_centis, 12_000);
    assert_eq!(summary.total_size, 75_000_000);
    assert_eq!(summary.codec_count("h264"), 1);
    assert_eq!(summary.resolution_count("1920x1080"), 1);
}

#[test]
fn test_processing_summary_add_video() {
    let mut summary = ProcessingSummary::new();

    let metadata = VideoMetadata {
        codec: "h264".to_string(),
        resolution: "1920x1080".to_string(),
        duration_centis: 12_000,
        bitrate: 5_000_000,
        size: 75_000_000,
        fps_millis: 30_000,
        audio_codec: "aac".to_string(),
        audio_sample_rate: 48000,
        audio_bitrate: 320_000,
        container: "mp4".to_string(),
        profile: "high".to_string(),
        color_space: "bt709".to_string(),
    };

    summary.add_video(&metadata);
    assert_eq!(summary.total_videos, 1);
    assert_eq!(summary.total_size, 75_000_000);
    assert_eq!(summary.total_duration_centis, 12_000);
    assert_eq!(summary.codec_count("h264"), 1);
    assert_eq!(summary.audio_codec_count("aac"), 1);
    assert_eq!(summary.resolution_count("1920x1080"), 1);
}

#[test]
fn test_processing_summary_comprehensive() {
    let mut summary = ProcessingSummary::new();

    let mut video1 = create_test_metadata();
    video1.duration_centis = 12_000;
    video1.bitrate = 5_000_000;
    video1.size = 100_000_000;

    let mut video2 = create_test_metadata();
    video2.codec = "hevc".to_string();
    video2.resolution = "3840x2160".to_string();
    video2.duration_centis = 18_000;
    video2.bitrate = 15_000_000;
    video2.size = 300_000_000;

    let mut video3 = create_test_metadata();
    video3.resolution = "1280x720".to_string();
    video3.duration_centis = 9_000;
    video3.bitrate = 3_000_000;
    video3.size = 50_000_000;

    let videos = vec![video1, video2, video3];

    for video in &videos {
        summary.add_video(video);
    }

    assert_eq!(summary.total_videos, 3);
    assert_eq!(summary.total_duration_centis, 39_000);
    assert_eq!(summary.total_size, 450_000_000);
    assert_eq!(summary.codec_count("h264"), 2);
    assert_eq!(summary.codec_count("hevc"), 1);
}

#[test]
fn test_processing_summary_display_coverage() {
    let mut summary = ProcessingSummary::new();

    let metadata1 = VideoMetadata {
        codec: "h264".to_string(),
        resolution: "1920x1080".to_string(),
        duration_centis: 6_000,
        bitrate: 5_000_000,
        size: 37_500_000,
        fps_millis: 30_000,
        audio_codec: "pcm_s24le".to_string(),
        audio_sample_rate: 48000,
        audio_bitrate: 1_536_000,
        container: "mp4".to_string(),
        profile: "high".to_string(),
        color_space: "bt709".to_string(),
    };

    let metadata2 = VideoMetadata {
        codec: "h265".to_string(),
        resolution: "3840x2160".to_string(),
        duration_centis: 18_000,
        bitrate: 15_000_000,
        size: 337_500_000,
        fps_millis: 60_000,
        audio_codec: "aac".to_string(),
        audio_sample_rate: 44100,
        audio_bitrate: 256_000,
        container: "mp4".to_string(),
        profile: "main".to_string(),
        color_space: "bt2020".to_string(),
    };

    summary.add_video(&metadata1);
    summary.add_video(&metadata2);

    assert_eq!(summary.total_videos, 2);
    assert_eq!(summary.codec_count("h264"), 1);
    assert_eq!(summary.codec_count("h265"), 1);
    assert_eq!(summary.audio_codec_count("pcm_s24le"), 1);
    assert_eq!(summary.audio_codec_count("aac"), 1);
}

#[test]
fn test_processing_summary_debug() {
    let mut summary = ProcessingSummary::new();
    let mut m = create_test_metadata();
    summary.add_video(&m);
    m.codec = "hevc".to_string();
    m.audio_codec = "pcm_s24le".to_string();
    m.resolution = "3840x2160".to_string();
    summary.add_video(&m);

    let debug_str = format!("{:?}", summary);
    assert!(debug_str.contains("total_videos: 2"));
    assert!(debug_str.contains("h264"));
    assert!(debug_str.contains("hevc"));
}

#[test]
fn test_conversion_report() {
    let mut summary = ProcessingSummary::new();
    summary.add_video(&create_test_metadata());

    let content = conversion_report_text(&summary);
    assert!(content.contains("Total Videos: 1"));
    assert!(content.contains("1920x1080"));
    assert!(content.contains("h264"));
    // The byte size is rendered with a decimal prefix by the external
    // formatter; a raw byte count would read differently.
    assert!(content.contains("75 MB"));
    assert!(!content.contains("Total Size: 75000000\n"));
}

#[test]
fn test_write_conversion_report_empty() {
    let summary = ProcessingSummary::new();
    let content = conversion_report_text(&summary);
    assert!(content.contains("Total Videos: 0"));
    assert!(content.contains("00:00:00.00"));
}

fn result_with_score(score: u8, compliant: bool) -> ComplianceResult {
    ComplianceResult {
        is_compliant: compliant,
        score,
        violations: vec![],
        recommendations: vec![],
    }
}

#[test]
fn test_compliance_summary() {
    let mut summary = ComplianceSummary::new();

    assert_eq!(summary.total_files, 0);
    assert_eq!(summary.compliant_files, 0);
    assert_eq!(summary.non_compliant_files, 0);

    let compliant_result = ComplianceResult {
        is_compliant: true,
        score: 100,
        violations: vec![],
        recommendations: vec![],
    };
    summary.add_result(&compliant_result, "test1.mp4");

    assert_eq!(summary.total_files, 1);
    assert_eq!(summary.compliant_files, 1);
    assert_eq!(summary.non_compliant_files, 0);
    assert_eq!(summary.average_score_centis(), 10_000);

    let non_compliant_result = ComplianceResult {
        is_compliant: false,
        score: 60,
        violations: vec![ComplianceViolation {
            severity: ViolationSeverity::Critical,
            category: ViolationCategory::VideoCodec,
            description: "Test violation".to_string(),
            current_value: "mpeg4".to_string(),
            expected_value: "h264".to_string(),
        }],
        recommendations: vec!["Fix codec".to_string()],
    };
    summary.add_result(&non_compliant_result, "test2.mp4");

    assert_eq!(summary.total_files, 2);
    assert_eq!(summary.compliant_files, 1);
    assert_eq!(summary.non_compliant_files, 1);
    assert_eq!(summary.average_score_centis(), 8_000);
    assert_eq!(summary.critical_violations, 1);
}

#[test]
fn test_running_mean() {
    // Scores 100 then 60 average to 80.00; a third score of 70 moves the
    // mean to 76.67 (rounded to centi-points).
    let mut summary = ComplianceSummary::new();
    summary.add_result(&result_with_score(100, true), "a.mp4");
    summary.add_result(&result_with_score(60, false), "b.mp4");
    assert_eq!(summary.average_score_centis(), 8_000);
    summary.add_result(&result_with_score(70, false), "c.mp4");
    assert_eq!(summary.average_score_centis(), 7_667);
}

#[test]
fn test_sorted_by_score() {
    let mut summary = ComplianceSummary::new();
    summary.add_result(&result_with_score(95, true), "good.mp4");
    summary.add_result(&result_with_score(40, false), "bad.mp4");
    summary.add_result(&result_with_score(70, false), "fair.mp4");
    summary.add_result(&result_with_score(40, false), "also_bad.mp4");

    let sorted = summary.sorted_by_score();
    assert_eq!(sorted.len(), 4);
    assert_eq!(sorted[0].1, 40);
    assert_eq!(sorted[1].1, 40);
    assert_eq!(sorted[2].1, 70);
    assert_eq!(sorted[3].1, 95);
    // Ties keep their recording order.
    assert_eq!(sorted[0].0, "bad.mp4");
    assert_eq!(sorted[1].0, "also_bad.mp4");
}

#[test]
fn test_batch_processor() {
    let mut batch = BatchProcessor::new(3);
    assert_eq!(batch.total_files, 3);
    assert_eq!(batch.processed_files, 0);

    batch.process_file_result("a.mp4".to_string(), Ok(Some("out/a.mp4".to_string())));
    batch.process_file_result("b.mp4".to_string(), Ok(None));
    batch.process_file_result(
        "c.mp4".to_string(),
        Err(VideoError::FFmpeg("probe failed".to_string())),
    );

    assert_eq!(batch.processed_files, 3);
    assert_eq!(batch.fixed_files, vec!["out/a.mp4".to_string()]);
    assert_eq!(batch.skipped_files, vec!["b.mp4".to_string()]);
    assert_eq!(batch.failed_files.len(), 1);
    assert_eq!(batch.failed_files[0].0, "c.mp4");
    assert_eq!(batch.failed_files[0].1, "FFmpeg error: probe failed");
}
