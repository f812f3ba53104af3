//! Cloud-audit bookkeeping for the demonstration drive integration: the
//! file descriptor, the name-pattern compliance heuristic, the audit report
//! fold, and upload-name derivation. The asynchronous client itself lives
//! outside the library.

use vstd::prelude::*;
use crate::text::{contains_str, ends_with_str, last_dot, spec_contains, spec_ends_with,
    spec_last_dot, str_eq};

verus! {

/// One video file as listed by the cloud store.
#[derive(Clone, Debug)]
pub struct DriveVideoFile {
    pub id: String,
    pub name: String,
    pub size: Option<i64>,
    pub mime_type: String,
    pub created_time: Option<String>,
    pub modified_time: Option<String>,
    pub parents: Vec<String>,
    pub web_view_link: Option<String>,
}

/// Outcome of auditing a set of cloud files: counts, per-file outcomes and
/// any per-file errors.
#[derive(Debug)]
pub struct DriveComplianceReport {
    pub total_files: usize,
    pub compliant_files: usize,
    pub non_compliant_files: usize,
    /// `(file, is_compliant, score)` in audit order.
    pub files_by_compliance: Vec<(DriveVideoFile, bool, u8)>,
    pub errors: Vec<(String, String)>,
}

impl Default for DriveComplianceReport {
    /// An empty report.
    fn default() -> (r: DriveComplianceReport)
        ensures
            r.total_files == 0,
            r.compliant_files == 0,
            r.non_compliant_files == 0,
            r.files_by_compliance@.len() == 0,
            r.errors@.len() == 0,
    {
        DriveComplianceReport {
            total_files: 0,
            compliant_files: 0,
            non_compliant_files: 0,
            files_by_compliance: Vec::new(),
            errors: Vec::new(),
        }
    }
}

/// The name-pattern heuristic: HDR markers fail outright, 720p passes
/// reduced, AVI containers need conversion, MP4 passes high, anything else
/// scores low.
pub open spec fn spec_mock_compliance(f: Seq<char>) -> (bool, u8) {
    if spec_contains(f, "hdr"@) || spec_contains(f, "HDR"@) {
        (false, 45u8)
    } else if spec_contains(f, "720p"@) {
        (true, 85u8)
    } else if spec_ends_with(f, ".avi"@) {
        (false, 65u8)
    } else if spec_ends_with(f, ".mp4"@) {
        (true, 95u8)
    } else {
        (false, 60u8)
    }
}

/// The demonstration compliance outcome for one file name.
pub fn generate_mock_compliance(filename: &str) -> (r: (bool, u8))
    ensures
        r == spec_mock_compliance(filename@),
{
    if contains_str(filename, "hdr") || contains_str(filename, "HDR") {
        (false, 45)
    } else if contains_str(filename, "720p") {
        (true, 85)
    } else if ends_with_str(filename, ".avi") {
        (false, 65)
    } else if ends_with_str(filename, ".mp4") {
        (true, 95)
    } else {
        (false, 60)
    }
}

/// The MIME type names a supported video format.
pub open spec fn spec_supported_video_format(m: Seq<char>) -> bool {
    ||| m == "video/mp4"@
    ||| m == "video/avi"@
    ||| m == "video/x-msvideo"@
    ||| m == "video/quicktime"@
    ||| m == "video/x-ms-wmv"@
    ||| m == "video/webm"@
}

/// Whether a MIME type represents a video format the audit can handle.
pub fn is_supported_video_format(mime_type: &str) -> (r: bool)
    ensures
        r == spec_supported_video_format(mime_type@),
{
    str_eq(mime_type, "video/mp4") || str_eq(mime_type, "video/avi") || str_eq(
        mime_type,
        "video/x-msvideo",
    ) || str_eq(mime_type, "video/quicktime") || str_eq(mime_type, "video/x-ms-wmv") || str_eq(
        mime_type,
        "video/webm",
    )
}

/// Number of files whose name-pattern outcome is compliant.
pub open spec fn count_mock_compliant(fs: Seq<DriveVideoFile>) -> int
    decreases fs.len(),
{
    if fs.len() == 0 {
        0
    } else {
        count_mock_compliant(fs.drop_last()) + if spec_mock_compliance(fs.last().name@).0 {
            1int
        } else {
            0int
        }
    }
}

impl DriveComplianceReport {
    /// Folds one audited file into the report under its name-pattern
    /// outcome.
    pub fn record(&mut self, file: DriveVideoFile)
        requires
            old(self).compliant_files < usize::MAX,
            old(self).non_compliant_files < usize::MAX,
        ensures
            final(self).total_files == old(self).total_files,
            final(self).errors@ == old(self).errors@,
            final(self).files_by_compliance@ == old(self).files_by_compliance@.push(
                (
                    file,
                    spec_mock_compliance(file.name@).0,
                    spec_mock_compliance(file.name@).1,
                ),
            ),
            final(self).compliant_files == old(self).compliant_files + (
            if spec_mock_compliance(file.name@).0 {
                1int
            } else {
                0int
            }),
            final(self).non_compliant_files == old(self).non_compliant_files + (
            if spec_mock_compliance(file.name@).0 {
                0int
            } else {
                1int
            }),
    {
        let (is_compliant, score) = generate_mock_compliance(file.name.as_str());
        if is_compliant {
            self.compliant_files = self.compliant_files + 1;
        } else {
            self.non_compliant_files = self.non_compliant_files + 1;
        }
        self.files_by_compliance.push((file, is_compliant, score));
    }
}

/// Audits a list of cloud files by name pattern, producing the full report.
pub fn audit_report(files: Vec<DriveVideoFile>) -> (r: DriveComplianceReport)
    ensures
        r.total_files == files@.len(),
        r.errors@.len() == 0,
        r.files_by_compliance@.len() == files@.len(),
        forall|i: int|
            0 <= i < files@.len() ==> #[trigger] r.files_by_compliance@[i] == (
                files@[i],
                spec_mock_compliance(files@[i].name@).0,
                spec_mock_compliance(files@[i].name@).1,
            ),
        r.compliant_files == count_mock_compliant(files@),
        r.non_compliant_files == files@.len() - count_mock_compliant(files@),
{
    let ghost all = files@;
    let total = files.len();
    let mut report = DriveComplianceReport::default();
    report.total_files = total;
    let mut rest = files;
    proof {
        assert(all.take(0).len() == 0);
    }
    while rest.len() > 0
        invariant
            rest@.len() <= all.len(),
            total == all.len(),
            rest@ == all.skip(all.len() - rest@.len()),
            report.total_files == total,
            report.errors@.len() == 0,
            report.files_by_compliance@.len() == all.len() - rest@.len(),
            forall|i: int|
                0 <= i < report.files_by_compliance@.len()
                    ==> #[trigger] report.files_by_compliance@[i] == (
                    all[i],
                    spec_mock_compliance(all[i].name@).0,
                    spec_mock_compliance(all[i].name@).1,
                ),
            report.compliant_files == count_mock_compliant(
                all.take(all.len() - rest@.len()),
            ),
            report.non_compliant_files == (all.len() - rest@.len()) - count_mock_compliant(
                all.take(all.len() - rest@.len()),
            ),
        decreases rest@.len(),
    {
        let ghost done = all.len() - rest@.len();
        let f = rest.remove(0);
        proof {
            assert(f == all[done]);
            lemma_count_mock_bound(all, done);
            assert(all.take(done + 1).drop_last() =~= all.take(done));
            assert(all.take(done + 1).last() == all[done]);
            assert(rest@ =~= all.skip(done + 1));
        }
        report.record(f);
        proof {
            assert(count_mock_compliant(all.take(done + 1)) == count_mock_compliant(
                all.take(done),
            ) + (if spec_mock_compliance(all[done].name@).0 {
                1int
            } else {
                0int
            }));
        }
    }
    proof {
        assert(all.take(all.len() as int) =~= all);
    }
    report
}

proof fn lemma_count_mock_bound(fs: Seq<DriveVideoFile>, i: int)
    requires
        0 <= i <= fs.len(),
    ensures
        0 <= count_mock_compliant(fs.take(i)) <= i,
    decreases i,
{
    if i > 0 {
        assert(fs.take(i).drop_last() =~= fs.take(i - 1));
        lemma_count_mock_bound(fs, i - 1);
    } else {
        assert(fs.take(0).len() == 0);
    }
}

/// The upload name for a corrected file: the suffix is spliced in before
/// the extension when the name has one, appended otherwise.
pub fn insert_name_suffix(name: &str, suffix: &str) -> (r: String)
    ensures
        spec_last_dot(name@) >= 0 ==> r@ == name@.subrange(0, spec_last_dot(name@)) + suffix@
            + "."@ + name@.subrange(spec_last_dot(name@) + 1, name@.len() as int),
        spec_last_dot(name@) < 0 ==> r@ == name@ + suffix@,
{
    let len = name.unicode_len();
    match last_dot(name) {
        Some(d) => {
            let stem = name.substring_char(0, d);
            let ext = name.substring_char(d + 1, len);
            let mut r = String::from_str(stem);
            r.append(suffix);
            r.append(".");
            r.append(ext);
            proof {
                assert(r@ =~= name@.subrange(0, spec_last_dot(name@)) + suffix@ + "."@
                    + name@.subrange(spec_last_dot(name@) + 1, name@.len() as int));
            }
            r
        },
        None => {
            let mut r = String::from_str(name);
            r.append(suffix);
            r
        },
    }
}

} // verus!
