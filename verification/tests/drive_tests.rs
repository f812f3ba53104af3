use mp4converter::{DriveVideoFile, VideoError, audit_report, generate_mock_compliance,
    insert_name_suffix, is_supported_video_format};

fn drive_file(id: &str, name: &str) -> DriveVideoFile {
    DriveVideoFile {
        id: id.to_string(),
        name: name.to_string(),
        size: Some(1_048_576),
        mime_type: "video/mp4".to_string(),
        created_time: None,
        modified_time: None,
        parents: vec![],
        web_view_link: None,
    }
}

#[test]
fn test_supported_video_formats() {
    assert!(is_supported_video_format("video/mp4"));
    assert!(is_supported_video_format("video/avi"));
    assert!(is_supported_video_format("video/x-msvideo"));
    assert!(is_supported_video_format("video/quicktime"));
    assert!(is_supported_video_format("video/webm"));

    assert!(!is_supported_video_format("image/jpeg"));
    assert!(!is_supported_video_format("text/plain"));
    assert!(!is_supported_video_format("application/pdf"));
}

#[test]
fn test_drive_video_file_creation() {
    let file = DriveVideoFile {
        id: "test123".to_string(),
        name: "test_video.mp4".to_string(),
        size: Some(1048576),
        mime_type: "video/mp4".to_string(),
        created_time: Some("2025-01-01T00:00:00.000Z".to_string()),
        modified_time: Some("2025-01-01T00:00:00.000Z".to_string()),
        parents: vec!["parent123".to_string()],
        web_view_link: Some("https://drive.google.com/file/d/test123".to_string()),
    };

    assert_eq!(file.id, "test123");
    assert_eq!(file.name, "test_video.mp4");
    assert_eq!(file.size, Some(1048576));
    assert_eq!(file.mime_type, "video/mp4");
}

#[test]
fn test_mock_compliance_patterns() {
    assert_eq!(generate_mock_compliance("training_video_hdr.mp4"), (false, 45));
    assert_eq!(generate_mock_compliance("movie_HDR_master.mov"), (false, 45));
    assert_eq!(generate_mock_compliance("webinar_720p.avi"), (true, 85));
    assert_eq!(generate_mock_compliance("old_clip.avi"), (false, 65));
    assert_eq!(generate_mock_compliance("presentation_recording.mp4"), (true, 95));
    assert_eq!(generate_mock_compliance("mystery.webm"), (false, 60));
}

#[test]
fn test_audit_report_counts() {
    let files = vec![
        drive_file("1", "presentation_recording.mp4"),
        drive_file("2", "webinar_720p.avi"),
        drive_file("3", "training_video_hdr.mp4"),
    ];
    let report = audit_report(files);
    assert_eq!(report.total_files, 3);
    assert_eq!(report.compliant_files, 2);
    assert_eq!(report.non_compliant_files, 1);
    assert_eq!(report.files_by_compliance.len(), 3);
    assert_eq!(report.files_by_compliance[0].1, true);
    assert_eq!(report.files_by_compliance[0].2, 95);
    assert_eq!(report.files_by_compliance[1].2, 85);
    assert_eq!(report.files_by_compliance[2].1, false);
    assert_eq!(report.files_by_compliance[2].2, 45);
    assert!(report.errors.is_empty());
}

#[test]
fn test_insert_name_suffix() {
    assert_eq!(insert_name_suffix("video.mp4", "_fixed"), "video_fixed.mp4");
    assert_eq!(insert_name_suffix("archive.tar.gz", "_v2"), "archive.tar_v2.gz");
    assert_eq!(insert_name_suffix("noext", "_fixed"), "noext_fixed");
}

#[test]
fn test_error_messages() {
    assert_eq!(
        VideoError::Io("file not found".to_string()).message(),
        "IO error: file not found"
    );
    assert_eq!(
        VideoError::FFmpeg("encoding failed".to_string()).message(),
        "FFmpeg error: encoding failed"
    );
    assert_eq!(
        VideoError::InvalidPath("/invalid/path".to_string()).message(),
        "Invalid path: /invalid/path"
    );
    assert_eq!(VideoError::NoVideosFound.message(), "No video files found in directory");
    assert_eq!(
        VideoError::HWAccel("GPU not found".to_string()).message(),
        "Hardware acceleration error: GPU not found"
    );
    assert_eq!(
        VideoError::Compliance("bad".to_string()).message(),
        "Compliance error: bad"
    );
    assert_eq!(
        VideoError::Standards("bad".to_string()).message(),
        "Standards parsing error: bad"
    );
    assert_eq!(
        VideoError::GoogleDrive("bad".to_string()).message(),
        "Google Drive error: bad"
    );
    assert_eq!(VideoError::Auth("bad".to_string()).message(), "Authentication error: bad");
}

#[test]
fn test_video_error_variants() {
    let io_error = VideoError::Io("file not found".to_string());
    let ffmpeg_error = VideoError::FFmpeg("encoding failed".to_string());
    let invalid_path_error = VideoError::InvalidPath("/invalid/path".to_string());
    let no_videos_error = VideoError::NoVideosFound;
    let hw_accel_error = VideoError::HWAccel("GPU not found".to_string());

    assert!(io_error.message().contains("IO error"));
    assert!(ffmpeg_error.message().contains("FFmpeg error"));
    assert!(invalid_path_error.message().contains("Invalid path"));
    assert!(no_videos_error.message().contains("No video files found"));
    assert!(hw_accel_error.message().contains("Hardware acceleration error"));
}

#[test]
fn test_video_error_from_io() {
    let io_err = std::io::Error::new(std::io::ErrorKind::PermissionDenied, "access denied");
    let video_err = VideoError::Io(io_err.to_string());

    match video_err {
        VideoError::Io(m) => assert!(m.contains("access denied")),
        _ => panic!("Expected Io variant"),
    }
}

#[test]
fn test_error_conversion() {
    let io_error = std::io::Error::new(std::io::ErrorKind::NotFound, "test error");
    let video_error = VideoError::Io(io_error.to_string());
    assert!(matches!(video_error, VideoError::Io(_)));
}
