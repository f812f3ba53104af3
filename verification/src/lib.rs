//! Media delivery-standards compliance: a declarative standards catalog, a
//! compliance engine that scores an asset's technical metadata against it, a
//! content classifier that tunes remediation, a remediation planner that
//! builds transcode directives, and batch aggregation of results.

pub mod classify;
pub mod drive;
pub mod duration;
pub mod engine;
pub mod error;
pub mod metadata;
pub mod parse;
pub mod plan;
pub mod probe;
pub mod standards;
pub mod summary;
pub mod text;

pub use classify::ContentType;
pub use classify::{detect_content_type, get_optimal_bitrate};
pub use drive::{DriveComplianceReport, DriveVideoFile, audit_report, generate_mock_compliance,
    insert_name_suffix, is_supported_video_format};
pub use duration::{format_duration, parse_time};
pub use engine::{ComplianceEngine, ComplianceResult, ComplianceViolation, ViolationCategory,
    ViolationSeverity};
pub use error::VideoError;
pub use metadata::VideoMetadata;
pub use probe::{fps_millis_of, metadata_from_probe, metadata_from_probe_bytes,
    select_video_files};
pub use plan::{build_compliance_args, build_optimized_args, convert_video_args,
    determine_target_resolution, generate_audio_fixes, generate_compliance_output_filename,
    generate_optimized_output_filename, generate_optimized_video_fixes, generate_video_fixes,
    get_hw_decode_codec, should_use_hw_decode};
pub use summary::{BatchProcessor, ComplianceSummary, ProcessingSummary, conversion_report_text};
pub use standards::{AudioStandards, BitRateRange, ContentStandards, QualityStandards,
    VideoStandards};
