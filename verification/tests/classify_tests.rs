use mp4converter::{ContentType, VideoMetadata, detect_content_type, get_optimal_bitrate};

fn metadata_with_fps(fps_millis: u64, resolution: &str) -> VideoMetadata {
    VideoMetadata {
        codec: "h264".to_string(),
        resolution: resolution.to_string(),
        duration_centis: 12_000,
        bitrate: 5_000_000,
        size: 75_000_000,
        fps_millis,
        audio_codec: "aac".to_string(),
        audio_sample_rate: 48000,
        audio_bitrate: 320_000,
        container: "mp4".to_string(),
        profile: "high".to_string(),
        color_space: "rec709".to_string(),
    }
}

#[test]
fn test_content_type_detection() {
    let content_types = vec![
        ContentType::ScreenCapture,
        ContentType::LiveAction,
        ContentType::Animation,
        ContentType::Presentation,
        ContentType::Unknown,
    ];

    for ct in content_types {
        match ct {
            ContentType::ScreenCapture => assert_eq!(format!("{:?}", ct), "ScreenCapture"),
            ContentType::LiveAction => assert_eq!(format!("{:?}", ct), "LiveAction"),
            ContentType::Animation => assert_eq!(format!("{:?}", ct), "Animation"),
            ContentType::Presentation => assert_eq!(format!("{:?}", ct), "Presentation"),
            ContentType::Unknown => assert_eq!(format!("{:?}", ct), "Unknown"),
        }
    }
}

#[test]
fn test_filename_priority_over_fps() {
    // A name naming a screen recording wins over the high-fps rule.
    let m = metadata_with_fps(60_000, "1920x1080");
    assert_eq!(detect_content_type(&m, "screen_recording.mp4"), ContentType::ScreenCapture);
}

#[test]
fn test_classifier_cascade() {
    // Name rules, in priority order.
    let m = metadata_with_fps(30_000, "1920x1080");
    assert_eq!(detect_content_type(&m, "My_Capture_01.mp4"), ContentType::ScreenCapture);
    assert_eq!(detect_content_type(&m, "quarterly_slides.mp4"), ContentType::Presentation);
    assert_eq!(detect_content_type(&m, "anime_episode.mp4"), ContentType::Animation);

    // High frame rate means live action.
    let m = metadata_with_fps(60_000, "1280x720");
    assert_eq!(detect_content_type(&m, "clip.mp4"), ContentType::LiveAction);

    // Very low frame rate means screen capture.
    let m = metadata_with_fps(10_000, "1280x720");
    assert_eq!(detect_content_type(&m, "clip.mp4"), ContentType::ScreenCapture);

    // 1080p at a standard rate means live action.
    let m = metadata_with_fps(24_000, "1920x1080");
    assert_eq!(detect_content_type(&m, "clip.mp4"), ContentType::LiveAction);

    // Everything else defaults to screen capture.
    let m = metadata_with_fps(25_000, "1280x720");
    assert_eq!(detect_content_type(&m, "clip.mp4"), ContentType::ScreenCapture);
}

#[test]
fn test_optimal_bitrate_table() {
    assert_eq!(get_optimal_bitrate(&ContentType::ScreenCapture, "1920x1080"), 6000);
    assert_eq!(get_optimal_bitrate(&ContentType::Presentation, "1280x720"), 4000);
    assert_eq!(get_optimal_bitrate(&ContentType::ScreenCapture, "640x480"), 3000);
    assert_eq!(get_optimal_bitrate(&ContentType::LiveAction, "1920x1080"), 12000);
    assert_eq!(get_optimal_bitrate(&ContentType::LiveAction, "1280x720"), 8000);
    assert_eq!(get_optimal_bitrate(&ContentType::LiveAction, "720x480"), 5000);
    assert_eq!(get_optimal_bitrate(&ContentType::Animation, "1920x1080"), 8000);
    assert_eq!(get_optimal_bitrate(&ContentType::Animation, "1280x720"), 6000);
    assert_eq!(get_optimal_bitrate(&ContentType::Animation, "999x999"), 4000);
    assert_eq!(get_optimal_bitrate(&ContentType::Unknown, "1920x1080"), 8000);
    assert_eq!(get_optimal_bitrate(&ContentType::Unknown, "1280x720"), 6000);
    assert_eq!(get_optimal_bitrate(&ContentType::Unknown, "2560x1440"), 4000);
}

#[test]
fn test_exact_resolution_rule() {
    // The 1080p standard-rate rule requires the resolution to be exactly
    // 1920x1080; a superstring does not qualify and falls to the default.
    let m = metadata_with_fps(25_000, "21920x1080");
    assert_eq!(detect_content_type(&m, "clip.mp4"), ContentType::ScreenCapture);
}
