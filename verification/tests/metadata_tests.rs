use mp4converter::VideoMetadata;

#[test]
fn test_video_metadata_comprehensive() {
    let mut metadata = VideoMetadata {
        codec: "h264".to_string(),
        resolution: "1920x1080".to_string(),
        duration_centis: 12_000,
        bitrate: 5_000_000,
        size: 75_000_000,
        fps_millis: 30_000,
        audio_codec: "aac".to_string(),
        audio_sample_rate: 48000,
        audio_bitrate: 320_000,
        container: "mp4".to_string(),
        profile: "high".to_string(),
        color_space: "rec709".to_string(),
    };
    metadata.codec = "hevc".to_string();
    metadata.resolution = "3840x2160".to_string();
    metadata.duration_centis = 720_000;
    metadata.bitrate = 25_000_000;
    metadata.size = 2_000_000_000;

    let cloned = metadata.clone();
    assert_eq!(metadata.codec, cloned.codec);
    assert_eq!(metadata.resolution, cloned.resolution);

    let debug_str = format!("{:?}", metadata);
    assert!(debug_str.contains("hevc"));
    assert!(debug_str.contains("3840x2160"));
}
