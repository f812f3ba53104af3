use mp4converter::{VideoError, fps_millis_of, metadata_from_probe, metadata_from_probe_bytes,
    select_video_files};

const PROBE_JSON: &str = r#"{
  "streams": [
    {
      "codec_type": "video",
      "codec_name": "h264",
      "width": 1920,
      "height": 1080,
      "profile": "High",
      "color_space": "BT709",
      "r_frame_rate": "30000/1001"
    },
    {
      "codec_type": "audio",
      "codec_name": "aac",
      "sample_rate": "48000",
      "bit_rate": "320000"
    }
  ],
  "format": {
    "duration": "83.45",
    "bit_rate": "5000000",
    "size": "75000000"
  }
}"#;

#[test]
fn test_probe_extraction() {
    let json: serde_json::Value = serde_json::from_str(PROBE_JSON).unwrap();
    let m = metadata_from_probe(&json, "MP4").unwrap();
    assert_eq!(m.codec, "h264");
    assert_eq!(m.resolution, "1920x1080");
    assert_eq!(m.duration_centis, 8345);
    assert_eq!(m.bitrate, 5_000_000);
    assert_eq!(m.size, 75_000_000);
    assert_eq!(m.fps_millis, 29_970);
    assert_eq!(m.audio_codec, "aac");
    assert_eq!(m.audio_sample_rate, 48000);
    assert_eq!(m.audio_bitrate, 320_000);
    assert_eq!(m.container, "mp4");
    assert_eq!(m.profile, "high");
    assert_eq!(m.color_space, "bt709");
}

#[test]
fn test_probe_defaults_for_missing_fields() {
    let json: serde_json::Value = serde_json::from_str(
        r#"{"streams": [{"codec_type": "video"}]}"#,
    ).unwrap();
    let m = metadata_from_probe(&json, "avi").unwrap();
    assert_eq!(m.codec, "unknown");
    assert_eq!(m.resolution, "0x0");
    assert_eq!(m.duration_centis, 0);
    assert_eq!(m.bitrate, 0);
    assert_eq!(m.size, 0);
    assert_eq!(m.fps_millis, 0);
    assert_eq!(m.audio_codec, "none");
    assert_eq!(m.audio_sample_rate, 0);
    assert_eq!(m.audio_bitrate, 0);
    assert_eq!(m.container, "avi");
    assert_eq!(m.profile, "unknown");
    assert_eq!(m.color_space, "unknown");
}

#[test]
fn test_probe_no_streams() {
    let json: serde_json::Value = serde_json::from_str(r#"{"format": {}}"#).unwrap();
    let r = metadata_from_probe(&json, "mp4");
    assert!(matches!(r, Err(VideoError::FFmpeg(_))));
}

#[test]
fn test_probe_no_video_stream() {
    let json: serde_json::Value = serde_json::from_str(
        r#"{"streams": [{"codec_type": "audio", "codec_name": "aac"}]}"#,
    ).unwrap();
    let r = metadata_from_probe(&json, "mp4");
    assert!(matches!(r, Err(VideoError::FFmpeg(_))));
}

#[test]
fn test_analyze_video_error_handling() {
    let result = metadata_from_probe_bytes(b"not a json document", "mp4");
    assert!(matches!(result, Err(VideoError::FFmpeg(_))));
    if let Err(VideoError::FFmpeg(msg)) = result {
        // The parser's own rendered message is carried through.
        assert!(!msg.is_empty());
    }
}

#[test]
fn test_probe_from_bytes() {
    let m = metadata_from_probe_bytes(PROBE_JSON.as_bytes(), "mp4").unwrap();
    assert_eq!(m.codec, "h264");
    assert_eq!(m.fps_millis, 29_970);
}

#[test]
fn test_fps_parsing() {
    assert_eq!(fps_millis_of("30000/1001"), 29_970);
    assert_eq!(fps_millis_of("25/1"), 25_000);
    assert_eq!(fps_millis_of("24"), 24_000);
    assert_eq!(fps_millis_of("23.976"), 23_976);
    assert_eq!(fps_millis_of("30/0"), 0);
    assert_eq!(fps_millis_of("a/b"), 0);
    assert_eq!(fps_millis_of(""), 0);
    assert_eq!(fps_millis_of("1/2/3"), 0);
}

#[test]
fn lib_test_process_empty_directory() {
    let result = select_video_files(vec![]);
    assert!(matches!(result, Err(VideoError::NoVideosFound)));
}

#[test]
fn test_validate_directory_comprehensive() {
    // Only non-video files: the no-assets error.
    let result = select_video_files(vec!["document.txt".to_string(), "image.jpg".to_string()]);
    assert!(matches!(result, Err(VideoError::NoVideosFound)));

    // Video files are kept; unsupported containers are ignored.
    let result = select_video_files(vec![
        "document.txt".to_string(),
        "video1.mp4".to_string(),
        "video2.avi".to_string(),
        "video3.mkv".to_string(),
    ]).unwrap();
    assert_eq!(result.len(), 2);
    assert!(result.iter().any(|p| p == "video1.mp4"));
    assert!(result.iter().any(|p| p == "video2.avi"));
}

#[test]
fn main_test_test_process_empty_directory() {
    let result = select_video_files(vec![]);
    assert!(matches!(result, Err(VideoError::NoVideosFound)));
}

#[test]
fn test_leading_dot_names_not_selected() {
    // A name whose only dot leads it has no extension and is not a video.
    let result = select_video_files(vec![".mp4".to_string(), ".avi".to_string()]);
    assert!(matches!(result, Err(VideoError::NoVideosFound)));

    let result = select_video_files(vec![".mp4".to_string(), "video.mp4".to_string()]).unwrap();
    assert_eq!(result, vec!["video.mp4".to_string()]);
}
