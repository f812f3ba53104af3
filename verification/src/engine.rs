//! The compliance engine: evaluates one asset's metadata against the
//! standards catalog, in a fixed rule order, and produces a scored result
//! with categorised violations and remediation recommendations.

use vstd::prelude::*;
use crate::error::VideoError;
use crate::metadata::VideoMetadata;
use crate::standards::ContentStandards;
use crate::standards::is_default_standards;
use crate::text::{ascii_lower, contains_str, join_comma, spec_contains, spec_join_comma,
    spec_lower, str_eq};

verus! {

/// How severe one deviation is; `Info` never blocks compliance.
#[derive(Clone, Copy, Debug, PartialEq, Eq, Structural)]
pub enum ViolationSeverity {
    Critical,
    Warning,
    Info,
}

/// Which rule dimension a deviation belongs to.
#[derive(Clone, Copy, Debug, PartialEq, Eq, Structural)]
pub enum ViolationCategory {
    VideoCodec,
    AudioCodec,
    Resolution,
    FrameRate,
    Bitrate,
    Container,
    ColorSpace,
    HDR,
    Profile,
    Audio,
}

/// One detected deviation, immutable once created.
#[derive(Clone, Debug)]
pub struct ComplianceViolation {
    pub severity: ViolationSeverity,
    pub category: ViolationCategory,
    pub description: String,
    pub current_value: String,
    pub expected_value: String,
}

/// The outcome of analysing one asset.
#[derive(Clone, Debug)]
pub struct ComplianceResult {
    pub is_compliant: bool,
    pub score: u8,
    pub violations: Vec<ComplianceViolation>,
    pub recommendations: Vec<String>,
}

/// The mathematical shadow of one violation: severity, category, and the
/// views of its three strings.
pub type ViolationRec = (ViolationSeverity, ViolationCategory, Seq<char>, Seq<char>, Seq<char>);

/// The shadow of `v`.
pub open spec fn viol_rec(v: ComplianceViolation) -> ViolationRec {
    (v.severity, v.category, v.description@, v.current_value@, v.expected_value@)
}

/// Membership of `x` among the views of `v`.
pub open spec fn seq_has(v: Seq<String>, x: Seq<char>) -> bool {
    exists|i: int| 0 <= i < v.len() && #[trigger] v[i]@ == x
}

/// Rule 1: the video codec is not in the preferred list.
pub open spec fn codec_bad(c: &ContentStandards, m: &VideoMetadata) -> bool {
    !seq_has(c.video.preferred_codecs@, m.codec@)
}

/// The resolution is in the preferred list.
pub open spec fn res_preferred(c: &ContentStandards, m: &VideoMetadata) -> bool {
    seq_has(c.video.preferred_resolutions@, m.resolution@)
}

/// The resolution is in the acceptable list.
pub open spec fn res_acceptable(c: &ContentStandards, m: &VideoMetadata) -> bool {
    seq_has(c.video.acceptable_resolutions@, m.resolution@)
}

/// Rule 2, critical branch: the resolution is neither preferred nor
/// acceptable.
pub open spec fn res_crit(c: &ContentStandards, m: &VideoMetadata) -> bool {
    !res_preferred(c, m) && !res_acceptable(c, m)
}

/// Rule 2, warning branch: acceptable but not preferred.
pub open spec fn res_warn(c: &ContentStandards, m: &VideoMetadata) -> bool {
    !res_preferred(c, m) && res_acceptable(c, m)
}

/// Rule 3: the lower-cased container is in the unsupported list.
pub open spec fn container_bad(c: &ContentStandards, m: &VideoMetadata) -> bool {
    seq_has(c.video.unsupported_containers@, spec_lower(m.container@))
}

/// The audio codec is in the preferred list.
pub open spec fn audio_preferred(c: &ContentStandards, m: &VideoMetadata) -> bool {
    seq_has(c.audio.preferred_codecs@, m.audio_codec@)
}

/// The audio codec is in the acceptable list.
pub open spec fn audio_acceptable(c: &ContentStandards, m: &VideoMetadata) -> bool {
    seq_has(c.audio.acceptable_codecs@, m.audio_codec@)
}

/// Rule 4, warning branch: the audio codec is neither preferred nor
/// acceptable.
pub open spec fn audio_warn(c: &ContentStandards, m: &VideoMetadata) -> bool {
    !audio_preferred(c, m) && !audio_acceptable(c, m)
}

/// Rule 4, informational branch: the audio codec is acceptable but not
/// preferred.
pub open spec fn audio_info(c: &ContentStandards, m: &VideoMetadata) -> bool {
    !audio_preferred(c, m) && audio_acceptable(c, m)
}

/// Rule 5, first stage: the lower-cased colour space contains one of the
/// lower-cased HDR restriction terms.
pub open spec fn hdr_bad(c: &ContentStandards, m: &VideoMetadata) -> bool {
    exists|i: int|
        0 <= i < c.quality.hdr_restrictions@.len() && spec_contains(
            spec_lower(m.color_space@),
            spec_lower(#[trigger] c.quality.hdr_restrictions@[i]@),
        )
}

/// Rule 5, second stage, reached only when the HDR stage found nothing: the
/// lower-cased colour space contains one of the unsupported colour spaces.
pub open spec fn cs_bad(c: &ContentStandards, m: &VideoMetadata) -> bool {
    !hdr_bad(c, m) && exists|i: int|
        0 <= i < c.quality.unsupported_color_spaces@.len() && spec_contains(
            spec_lower(m.color_space@),
            spec_lower(#[trigger] c.quality.unsupported_color_spaces@[i]@),
        )
}

/// Total score deduction implied by the rules, before clamping.
pub open spec fn deduction(c: &ContentStandards, m: &VideoMetadata) -> int {
    (if codec_bad(c, m) {
        20int
    } else {
        0int
    }) + (if res_crit(c, m) {
        25int
    } else if res_warn(c, m) {
        10int
    } else {
        0int
    }) + (if container_bad(c, m) {
        15int
    } else {
        0int
    }) + (if audio_warn(c, m) {
        15int
    } else if audio_info(c, m) {
        5int
    } else {
        0int
    }) + (if hdr_bad(c, m) {
        30int
    } else if cs_bad(c, m) {
        25int
    } else {
        0int
    })
}

/// The compliance score: 100 minus the deduction, clamped at zero.
pub open spec fn spec_score(c: &ContentStandards, m: &VideoMetadata) -> int {
    if deduction(c, m) >= 100 {
        0int
    } else {
        100 - deduction(c, m)
    }
}

/// A warning- or critical-severity rule fired; exactly the cases that block
/// compliance.
pub open spec fn blocking_violation(c: &ContentStandards, m: &VideoMetadata) -> bool {
    ||| codec_bad(c, m)
    ||| res_crit(c, m)
    ||| res_warn(c, m)
    ||| container_bad(c, m)
    ||| audio_warn(c, m)
    ||| hdr_bad(c, m)
    ||| cs_bad(c, m)
}

/// Shadow of the violation that rule 1 emits.
pub open spec fn codec_piece(c: &ContentStandards, m: &VideoMetadata) -> Seq<ViolationRec> {
    if codec_bad(c, m) {
        seq![
            (
                ViolationSeverity::Critical,
                ViolationCategory::VideoCodec,
                "Video codec not in preferred list"@,
                m.codec@,
                spec_join_comma(c.video.preferred_codecs@),
            ),
        ]
    } else {
        Seq::empty()
    }
}

/// Shadow of the violation that rule 2 emits.
pub open spec fn res_piece(c: &ContentStandards, m: &VideoMetadata) -> Seq<ViolationRec> {
    if res_crit(c, m) {
        seq![
            (
                ViolationSeverity::Critical,
                ViolationCategory::Resolution,
                "Resolution not supported"@,
                m.resolution@,
                "Preferred: "@ + spec_join_comma(c.video.preferred_resolutions@),
            ),
        ]
    } else if res_warn(c, m) {
        seq![
            (
                ViolationSeverity::Warning,
                ViolationCategory::Resolution,
                "Resolution acceptable but not preferred"@,
                m.resolution@,
                "Preferred: "@ + spec_join_comma(c.video.preferred_resolutions@),
            ),
        ]
    } else {
        Seq::empty()
    }
}

/// Shadow of the violation that rule 3 emits.
pub open spec fn container_piece(c: &ContentStandards, m: &VideoMetadata) -> Seq<ViolationRec> {
    if container_bad(c, m) {
        seq![
            (
                ViolationSeverity::Critical,
                ViolationCategory::Container,
                "Container format not supported"@,
                m.container@,
                spec_join_comma(c.video.containers@),
            ),
        ]
    } else {
        Seq::empty()
    }
}

/// Shadow of the violation that rule 4 emits.
pub open spec fn audio_piece(c: &ContentStandards, m: &VideoMetadata) -> Seq<ViolationRec> {
    if audio_warn(c, m) {
        seq![
            (
                ViolationSeverity::Warning,
                ViolationCategory::AudioCodec,
                "Audio codec not in preferred or acceptable list"@,
                m.audio_codec@,
                "Preferred: "@ + spec_join_comma(c.audio.preferred_codecs@) + " | Acceptable: "@
                    + spec_join_comma(c.audio.acceptable_codecs@),
            ),
        ]
    } else if audio_info(c, m) {
        seq![
            (
                ViolationSeverity::Info,
                ViolationCategory::AudioCodec,
                "Audio codec is acceptable but not preferred"@,
                m.audio_codec@,
                "Preferred: "@ + spec_join_comma(c.audio.preferred_codecs@),
            ),
        ]
    } else {
        Seq::empty()
    }
}

/// Shadow of the violation that rule 5 emits.
pub open spec fn color_piece(c: &ContentStandards, m: &VideoMetadata) -> Seq<ViolationRec> {
    if hdr_bad(c, m) {
        seq![
            (
                ViolationSeverity::Critical,
                ViolationCategory::HDR,
                "HDR content not supported by delivery pipeline"@,
                m.color_space@,
                "Rec. 709 (SDR)"@,
            ),
        ]
    } else if cs_bad(c, m) {
        seq![
            (
                ViolationSeverity::Critical,
                ViolationCategory::HDR,
                "Color space not supported by delivery pipeline"@,
                m.color_space@,
                "Rec. 709 (SDR)"@,
            ),
        ]
    } else {
        Seq::empty()
    }
}

/// Shadows of all emitted violations, in rule order.
pub open spec fn expected_viol_recs(c: &ContentStandards, m: &VideoMetadata) -> Seq<ViolationRec> {
    codec_piece(c, m) + res_piece(c, m) + container_piece(c, m) + audio_piece(c, m) + color_piece(
        c,
        m,
    )
}

/// Views of all emitted recommendations, in rule order. Only warning- and
/// critical-level rules recommend; rule 4's informational branch does not.
pub open spec fn expected_recs(c: &ContentStandards, m: &VideoMetadata) -> Seq<Seq<char>> {
    (if codec_bad(c, m) {
        seq!["Convert to H.264 codec for optimal compatibility"@]
    } else {
        Seq::empty()
    }) + (if res_crit(c, m) {
        seq!["Resize to 1920x1080 or 1280x720 for standard content"@]
    } else {
        Seq::empty()
    }) + (if container_bad(c, m) {
        seq!["Convert to MP4 or MOV container"@]
    } else {
        Seq::empty()
    }) + (if audio_warn(c, m) {
        seq!["Convert audio to PCM or ALAC for highest quality"@]
    } else {
        Seq::empty()
    }) + (if hdr_bad(c, m) || cs_bad(c, m) {
        seq!["Convert to SDR (Rec. 709) color space"@]
    } else {
        Seq::empty()
    })
}

/// Membership of `x` in `v`, character for character.
fn vec_has(v: &Vec<String>, x: &str) -> (r: bool)
    ensures
        r == seq_has(v@, x@),
{
    let mut i: usize = 0;
    while i < v.len()
        invariant
            i <= v@.len(),
            forall|j: int| 0 <= j < i ==> #[trigger] v@[j]@ != x@,
        decreases v@.len() - i,
    {
        if str_eq(v[i].as_str(), x) {
            return true;
        }
        i += 1;
    }
    false
}

/// Whether the lower-cased form of any list entry occurs inside `hay`.
fn any_term_in(list: &Vec<String>, hay: &str) -> (r: bool)
    ensures
        r == exists|i: int|
            0 <= i < list@.len() && spec_contains(hay@, spec_lower(#[trigger] list@[i]@)),
{
    let mut i: usize = 0;
    while i < list.len()
        invariant
            i <= list@.len(),
            forall|j: int|
                0 <= j < i ==> !spec_contains(hay@, spec_lower(#[trigger] list@[j]@)),
        decreases list@.len() - i,
    {
        let term = ascii_lower(list[i].as_str());
        if contains_str(hay, term.as_str()) {
            return true;
        }
        i += 1;
    }
    false
}

/// Consumes the standards catalog and analyses assets against it.
pub struct ComplianceEngine {
    standards: ContentStandards,
}

impl ComplianceEngine {
    /// The catalog this engine analyses against.
    pub closed spec fn standards_spec(&self) -> ContentStandards {
        self.standards
    }

    /// An engine over the default delivery catalog; never fails.
    pub fn new() -> (r: Result<ComplianceEngine, VideoError>)
        ensures
            r matches Ok(e) && is_default_standards(&e.standards_spec()),
    {
        let standards = match ContentStandards::load_default() {
            Ok(s) => s,
            Err(e) => {
                return Err(e);
            },
        };
        Ok(ComplianceEngine { standards })
    }

    /// Read-only access to the catalog this engine analyses against.
    pub fn get_standards(&self) -> (r: &ContentStandards)
        ensures
            *r == self.standards_spec(),
    {
        &self.standards
    }

    /// Evaluates the five rule dimensions in fixed order, each contributing
    /// to the score by saturating subtraction from 100. Total over all
    /// syntactically valid metadata; the result's violations, score,
    /// recommendations and compliance flag are pinned exactly by the rule
    /// predicates over `(catalog, metadata)`.
    #[verifier::rlimit(100)]
    pub fn analyze_compliance(&self, metadata: &VideoMetadata) -> (r: ComplianceResult)
        ensures
            r.score as int == spec_score(&self.standards_spec(), metadata),
            r.score <= 100,
            r.is_compliant == !blocking_violation(&self.standards_spec(), metadata),
            r.is_compliant == (forall|j: int|
                0 <= j < r.violations@.len() ==> (#[trigger] r.violations@[j]).severity
                    is Info),
            r.violations@.map_values(|v: ComplianceViolation| viol_rec(v)) == expected_viol_recs(
                &self.standards_spec(),
                metadata,
            ),
            r.recommendations@.map_values(|s: String| s@) == expected_recs(
                &self.standards_spec(),
                metadata,
            ),
    {
        let ghost cat = &self.standards;
        let mut violations: Vec<ComplianceViolation> = Vec::new();
        let mut recommendations: Vec<String> = Vec::new();
        let mut score: u8 = 100;

        // Rule 1: video codec.
        let is_codec_bad = !vec_has(&self.standards.video.preferred_codecs, metadata.codec.as_str());
        if is_codec_bad {
            violations.push(
                ComplianceViolation {
                    severity: ViolationSeverity::Critical,
                    category: ViolationCategory::VideoCodec,
                    description: String::from_str("Video codec not in preferred list"),
                    current_value: metadata.codec.clone(),
                    expected_value: join_comma(&self.standards.video.preferred_codecs),
                },
            );
            score = score.saturating_sub(20);
            recommendations.push(String::from_str("Convert to H.264 codec for optimal compatibility"));
        }
        proof {
            assert(violations@.map_values(|v: ComplianceViolation| viol_rec(v)) =~= codec_piece(
                cat,
                metadata,
            ));
        }

        // Rule 2: resolution.
        let is_pref_res = vec_has(
            &self.standards.video.preferred_resolutions,
            metadata.resolution.as_str(),
        );
        let is_acc_res = vec_has(
            &self.standards.video.acceptable_resolutions,
            metadata.resolution.as_str(),
        );
        if !is_pref_res && !is_acc_res {
            let mut expected = String::from_str("Preferred: ");
            expected.append(join_comma(&self.standards.video.preferred_resolutions).as_str());
            violations.push(
                ComplianceViolation {
                    severity: ViolationSeverity::Critical,
                    category: ViolationCategory::Resolution,
                    description: String::from_str("Resolution not supported"),
                    current_value: metadata.resolution.clone(),
                    expected_value: expected,
                },
            );
            score = score.saturating_sub(25);
            recommendations.push(
                String::from_str("Resize to 1920x1080 or 1280x720 for standard content"),
            );
        } else if !is_pref_res {
            let mut expected = String::from_str("Preferred: ");
            expected.append(join_comma(&self.standards.video.preferred_resolutions).as_str());
            violations.push(
                ComplianceViolation {
                    severity: ViolationSeverity::Warning,
                    category: ViolationCategory::Resolution,
                    description: String::from_str("Resolution acceptable but not preferred"),
                    current_value: metadata.resolution.clone(),
                    expected_value: expected,
                },
            );
            score = score.saturating_sub(10);
        }
        proof {
            assert(violations@.map_values(|v: ComplianceViolation| viol_rec(v)) =~= codec_piece(
                cat,
                metadata,
            ) + res_piece(cat, metadata));
        }

        // Rule 3: container format.
        let lower_container = ascii_lower(metadata.container.as_str());
        let is_container_bad = vec_has(
            &self.standards.video.unsupported_containers,
            lower_container.as_str(),
        );
        if is_container_bad {
            violations.push(
                ComplianceViolation {
                    severity: ViolationSeverity::Critical,
                    category: ViolationCategory::Container,
                    description: String::from_str("Container format not supported"),
                    current_value: metadata.container.clone(),
                    expected_value: join_comma(&self.standards.video.containers),
                },
            );
            score = score.saturating_sub(15);
            recommendations.push(String::from_str("Convert to MP4 or MOV container"));
        }
        proof {
            assert(violations@.map_values(|v: ComplianceViolation| viol_rec(v)) =~= codec_piece(
                cat,
                metadata,
            ) + res_piece(cat, metadata) + container_piece(cat, metadata));
        }

        // Rule 4: audio codec.
        let is_audio_pref = vec_has(
            &self.standards.audio.preferred_codecs,
            metadata.audio_codec.as_str(),
        );
        let is_audio_acc = vec_has(
            &self.standards.audio.acceptable_codecs,
            metadata.audio_codec.as_str(),
        );
        if !is_audio_pref && !is_audio_acc {
            let mut expected = String::from_str("Preferred: ");
            expected.append(join_comma(&self.standards.audio.preferred_codecs).as_str());
            expected.append(" | Acceptable: ");
            expected.append(join_comma(&self.standards.audio.acceptable_codecs).as_str());
            violations.push(
                ComplianceViolation {
                    severity: ViolationSeverity::Warning,
                    category: ViolationCategory::AudioCodec,
                    description: String::from_str("Audio codec not in preferred or acceptable list"),
                    current_value: metadata.audio_codec.clone(),
                    expected_value: expected,
                },
            );
            score = score.saturating_sub(15);
            recommendations.push(
                String::from_str("Convert audio to PCM or ALAC for highest quality"),
            );
        } else if !is_audio_pref && is_audio_acc {
            let mut expected = String::from_str("Preferred: ");
            expected.append(join_comma(&self.standards.audio.preferred_codecs).as_str());
            violations.push(
                ComplianceViolation {
                    severity: ViolationSeverity::Info,
                    category: ViolationCategory::AudioCodec,
                    description: String::from_str("Audio codec is acceptable but not preferred"),
                    current_value: metadata.audio_codec.clone(),
                    expected_value: expected,
                },
            );
            score = score.saturating_sub(5);
        }
        proof {
            assert(violations@.map_values(|v: ComplianceViolation| viol_rec(v)) =~= codec_piece(
                cat,
                metadata,
            ) + res_piece(cat, metadata) + container_piece(cat, metadata) + audio_piece(
                cat,
                metadata,
            ));
        }

        // Rule 5: HDR restrictions first; the generic unsupported
        // colour-space list is consulted only when no restriction matched.
        let lower_cs = ascii_lower(metadata.color_space.as_str());
        let is_hdr_bad = any_term_in(&self.standards.quality.hdr_restrictions, lower_cs.as_str());
        let mut is_cs_bad = false;
        if is_hdr_bad {
            violations.push(
                ComplianceViolation {
                    severity: ViolationSeverity::Critical,
                    category: ViolationCategory::HDR,
                    description: String::from_str("HDR content not supported by delivery pipeline"),
                    current_value: metadata.color_space.clone(),
                    expected_value: String::from_str("Rec. 709 (SDR)"),
                },
            );
            score = score.saturating_sub(30);
            recommendations.push(String::from_str("Convert to SDR (Rec. 709) color space"));
        } else {
            is_cs_bad = any_term_in(
                &self.standards.quality.unsupported_color_spaces,
                lower_cs.as_str(),
            );
            if is_cs_bad {
                violations.push(
                    ComplianceViolation {
                        severity: ViolationSeverity::Critical,
                        category: ViolationCategory::HDR,
                        description: String::from_str(
                            "Color space not supported by delivery pipeline",
                        ),
                        current_value: metadata.color_space.clone(),
                        expected_value: String::from_str("Rec. 709 (SDR)"),
                    },
                );
                score = score.saturating_sub(25);
                recommendations.push(String::from_str("Convert to SDR (Rec. 709) color space"));
            }
        }
        proof {
            assert(violations@.map_values(|v: ComplianceViolation| viol_rec(v))
                =~= expected_viol_recs(cat, metadata));
            assert(recommendations@.map_values(|s: String| s@) =~= expected_recs(cat, metadata));
        }

        let is_compliant = !(is_codec_bad || (!is_pref_res && !is_acc_res) || (!is_pref_res
            && is_acc_res) || is_container_bad || (!is_audio_pref && !is_audio_acc) || is_hdr_bad
            || is_cs_bad);

        proof {
            lemma_compliant_iff_all_info(cat, metadata);
            let recs = violations@.map_values(|v: ComplianceViolation| viol_rec(v));
            assert forall|j: int| 0 <= j < violations@.len() implies (
            #[trigger] violations@[j]).severity == expected_viol_recs(cat, metadata)[j].0 by {
                assert(recs[j] == viol_rec(violations@[j]));
            }
        }

        ComplianceResult { is_compliant, score, violations, recommendations }
    }
}

/// Number of records in `s` whose category is `cat`.
pub open spec fn count_category(s: Seq<ViolationRec>, cat: ViolationCategory) -> int
    decreases s.len(),
{
    if s.len() == 0 {
        0
    } else {
        count_category(s.drop_last(), cat) + if s.last().1 == cat {
            1int
        } else {
            0int
        }
    }
}

proof fn lemma_count_category_add(a: Seq<ViolationRec>, b: Seq<ViolationRec>, cat: ViolationCategory)
    ensures
        count_category(a + b, cat) == count_category(a, cat) + count_category(b, cat),
    decreases b.len(),
{
    if b.len() == 0 {
        assert(a + b =~= a);
    } else {
        assert((a + b).drop_last() =~= a + b.drop_last());
        assert((a + b).last() == b.last());
        lemma_count_category_add(a, b.drop_last(), cat);
    }
}

proof fn lemma_count_category_single(x: ViolationRec, cat: ViolationCategory)
    ensures
        count_category(seq![x], cat) == if x.1 == cat {
            1int
        } else {
            0int
        },
{
    let s = seq![x];
    assert(s.len() == 1);
    assert(s.last() == x);
    assert(s.drop_last() =~= Seq::<ViolationRec>::empty());
    assert(count_category(Seq::<ViolationRec>::empty(), cat) == 0);
    assert(count_category(s, cat) == count_category(s.drop_last(), cat) + if s.last().1 == cat { 1int } else { 0int });
}

/// Law: the score always lies between 0 and 100, for every catalog and every
/// metadata value; deductions saturate and never drive it negative.
pub proof fn lemma_score_in_range(c: &ContentStandards, m: &VideoMetadata)
    ensures
        0 <= spec_score(c, m) <= 100,
{
}

/// Law: the colour check short-circuits. When an HDR restriction term
/// matches, exactly one HDR-category violation is emitted, the generic
/// unsupported-colour-space stage is skipped, and the colour stage deducts
/// 30 points, never 55.
pub proof fn lemma_hdr_short_circuit(c: &ContentStandards, m: &VideoMetadata)
    requires
        hdr_bad(c, m),
    ensures
        !cs_bad(c, m),
        count_category(expected_viol_recs(c, m), ViolationCategory::HDR) == 1,
        deduction(c, m) == (if codec_bad(c, m) {
            20int
        } else {
            0int
        }) + (if res_crit(c, m) {
            25int
        } else if res_warn(c, m) {
            10int
        } else {
            0int
        }) + (if container_bad(c, m) {
            15int
        } else {
            0int
        }) + (if audio_warn(c, m) {
            15int
        } else if audio_info(c, m) {
            5int
        } else {
            0int
        }) + 30,
{
    let p1 = codec_piece(c, m);
    let p2 = res_piece(c, m);
    let p3 = container_piece(c, m);
    let p4 = audio_piece(c, m);
    let p5 = color_piece(c, m);
    lemma_count_category_add(p1 + p2 + p3 + p4, p5, ViolationCategory::HDR);
    lemma_count_category_add(p1 + p2 + p3, p4, ViolationCategory::HDR);
    lemma_count_category_add(p1 + p2, p3, ViolationCategory::HDR);
    lemma_count_category_add(p1, p2, ViolationCategory::HDR);
    if codec_bad(c, m) {
        lemma_count_category_single(p1[0], ViolationCategory::HDR);
        assert(p1 =~= seq![p1[0]]);
    }
    if res_crit(c, m) || res_warn(c, m) {
        lemma_count_category_single(p2[0], ViolationCategory::HDR);
        assert(p2 =~= seq![p2[0]]);
    }
    if container_bad(c, m) {
        lemma_count_category_single(p3[0], ViolationCategory::HDR);
        assert(p3 =~= seq![p3[0]]);
    }
    if audio_warn(c, m) || audio_info(c, m) {
        lemma_count_category_single(p4[0], ViolationCategory::HDR);
        assert(p4 =~= seq![p4[0]]);
    }
    lemma_count_category_single(p5[0], ViolationCategory::HDR);
    assert(p5 =~= seq![p5[0]]);
}

/// Law: an analysis is compliant exactly when every emitted violation has
/// severity `Info`; any warning or critical violation blocks compliance.
pub proof fn lemma_compliant_iff_all_info(c: &ContentStandards, m: &VideoMetadata)
    ensures
        (forall|j: int|
            0 <= j < expected_viol_recs(c, m).len() ==> expected_viol_recs(c, m)[j].0
                is Info) <==> !blocking_violation(c, m),
{
    let e = expected_viol_recs(c, m);
    let l1 = codec_piece(c, m).len() as int;
    let l2 = res_piece(c, m).len() as int;
    let l3 = container_piece(c, m).len() as int;
    let l4 = audio_piece(c, m).len() as int;
    if codec_bad(c, m) {
        assert(e[0].0 is Critical);
    }
    if res_crit(c, m) {
        assert(e[l1].0 is Critical);
    }
    if res_warn(c, m) {
        assert(e[l1].0 is Warning);
    }
    if container_bad(c, m) {
        assert(e[l1 + l2].0 is Critical);
    }
    if audio_warn(c, m) {
        assert(e[l1 + l2 + l3].0 is Warning);
    }
    if hdr_bad(c, m) || cs_bad(c, m) {
        assert(e[l1 + l2 + l3 + l4].0 is Critical);
    }
    if !blocking_violation(c, m) {
        assert(e =~= audio_piece(c, m));
        assert forall|j: int| 0 <= j < e.len() implies e[j].0 is Info by {
            assert(audio_info(c, m));
        }
    }
}

} // verus!
