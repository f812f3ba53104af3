//! Batch aggregation: per-dimension distribution counts over processed
//! assets, running compliance statistics with a worst-first ranking, the
//! batch outcome tracker, and the plain-text conversion report.

use vstd::prelude::*;
use crate::duration::{format_duration, spec_format_duration};
use crate::engine::{ComplianceResult, ComplianceViolation, ViolationSeverity};
use crate::error::{spec_message, VideoError};
use crate::metadata::VideoMetadata;
use crate::text::{push_u64, str_eq, dec_str};

verus! {

/// No two entries share a key.
pub open spec fn keys_unique(es: Seq<(String, u64)>) -> bool {
    forall|i: int, j: int| 0 <= i < j < es.len() ==> (#[trigger] es[i]).0@ != (#[trigger] es[j]).0@
}

/// The count stored under `k`, or 0 when `k` has no entry.
pub open spec fn assoc(es: Seq<(String, u64)>, k: Seq<char>) -> int
    decreases es.len(),
{
    if es.len() == 0 {
        0
    } else if es[0].0@ == k {
        es[0].1 as int
    } else {
        assoc(es.skip(1), k)
    }
}

/// Every stored count is at most `b`.
pub open spec fn counts_at_most(es: Seq<(String, u64)>, b: int) -> bool {
    forall|i: int| 0 <= i < es.len() ==> (#[trigger] es[i]).1 <= b
}

proof fn lemma_assoc_update(es: Seq<(String, u64)>, i: int, x: (String, u64), k: Seq<char>)
    requires
        0 <= i < es.len(),
        x.0@ == es[i].0@,
        es[i].0@ == k,
        keys_unique(es),
    ensures
        assoc(es.update(i, x), k) == x.1,
        forall|k2: Seq<char>| k2 != k ==> assoc(es.update(i, x), k2) == assoc(es, k2),
    decreases es.len(),
{
    if i == 0 {
        assert(es.update(0, x)[0] == x);
        assert(es.update(0, x).skip(1) =~= es.skip(1));
        assert(assoc(es.update(0, x), k) == x.1);
        assert forall|k2: Seq<char>| k2 != k implies assoc(es.update(0, x), k2) == assoc(
            es,
            k2,
        ) by {
            assert(assoc(es.update(0, x), k2) == assoc(es.update(0, x).skip(1), k2));
            assert(assoc(es, k2) == assoc(es.skip(1), k2));
        }
    } else {
        assert(es[0].0@ != k);
        assert(es.update(i, x)[0] == es[0]);
        assert(es.update(i, x).skip(1) =~= es.skip(1).update(i - 1, x));
        assert(keys_unique(es.skip(1))) by {
            assert(forall|a: int, b: int|
                0 <= a < b < es.skip(1).len() ==> es.skip(1)[a] == #[trigger] es[a + 1]
                    && es.skip(1)[b] == #[trigger] es[b + 1]);
        }
        assert(es.skip(1)[i - 1] == es[i]);
        lemma_assoc_update(es.skip(1), i - 1, x, k);
        assert(assoc(es.update(i, x), k) == assoc(es.skip(1).update(i - 1, x), k));
        assert forall|k2: Seq<char>| k2 != k implies assoc(es.update(i, x), k2) == assoc(
            es,
            k2,
        ) by {
            if es[0].0@ == k2 {
                assert(assoc(es.update(i, x), k2) == es[0].1);
                assert(assoc(es, k2) == es[0].1);
            } else {
                assert(assoc(es.update(i, x), k2) == assoc(es.skip(1).update(i - 1, x), k2));
                assert(assoc(es, k2) == assoc(es.skip(1), k2));
            }
        }
    }
}

proof fn lemma_assoc_push(es: Seq<(String, u64)>, x: (String, u64), k: Seq<char>)
    requires
        forall|i: int| 0 <= i < es.len() ==> (#[trigger] es[i]).0@ != x.0@,
        x.0@ == k,
    ensures
        assoc(es.push(x), k) == x.1,
        forall|k2: Seq<char>| k2 != k ==> assoc(es.push(x), k2) == assoc(es, k2),
    decreases es.len(),
{
    if es.len() == 0 {
        assert(es.push(x)[0] == x);
        assert(es.push(x).skip(1) =~= Seq::<(String, u64)>::empty());
        assert(assoc(es.push(x), k) == x.1);
        assert forall|k2: Seq<char>| k2 != k implies assoc(es.push(x), k2) == assoc(es, k2) by {
            assert(assoc(es.push(x), k2) == assoc(es.push(x).skip(1), k2));
            assert(assoc(Seq::<(String, u64)>::empty(), k2) == 0);
            assert(assoc(es, k2) == 0);
        }
    } else {
        assert(es.push(x)[0] == es[0]);
        assert(es.push(x).skip(1) =~= es.skip(1).push(x));
        assert(forall|i: int|
            0 <= i < es.skip(1).len() ==> es.skip(1)[i] == #[trigger] es[i + 1]);
        lemma_assoc_push(es.skip(1), x, k);
        assert(es[0].0@ != k);
        assert(assoc(es.push(x), k) == assoc(es.skip(1).push(x), k));
        assert forall|k2: Seq<char>| k2 != k implies assoc(es.push(x), k2) == assoc(es, k2) by {
            if es[0].0@ == k2 {
                assert(assoc(es.push(x), k2) == es[0].1);
                assert(assoc(es, k2) == es[0].1);
            } else {
                assert(assoc(es.push(x), k2) == assoc(es.skip(1).push(x), k2));
                assert(assoc(es, k2) == assoc(es.skip(1), k2));
            }
        }
    }
}

/// Adds one to the count stored under `key`, creating the entry when absent.
/// `bound` caps every stored count beforehand, so no increment overflows.
fn incr_count(entries: &mut Vec<(String, u64)>, key: &str, Ghost(bound): Ghost<int>)
    requires
        keys_unique(old(entries)@),
        counts_at_most(old(entries)@, bound),
        0 <= bound < u64::MAX,
    ensures
        keys_unique(final(entries)@),
        counts_at_most(final(entries)@, bound + 1),
        assoc(final(entries)@, key@) == assoc(old(entries)@, key@) + 1,
        forall|k2: Seq<char>| k2 != key@ ==> assoc(final(entries)@, k2) == assoc(
            old(entries)@,
            k2,
        ),
{
    let ghost orig = entries@;
    let n = entries.len();
    let mut i: usize = 0;
    while i < n
        invariant
            i <= n,
            n == entries@.len(),
            entries@ == orig,
            orig == old(entries)@,
            keys_unique(orig),
            counts_at_most(orig, bound),
            0 <= bound < u64::MAX,
            forall|j: int| 0 <= j < i ==> (#[trigger] orig[j]).0@ != key@,
        decreases n - i,
    {
        if str_eq(entries[i].0.as_str(), key) {
            let c = entries[i].1;
            let new_key = String::from_str(key);
            entries.set(i, (new_key, c + 1));
            proof {
                let now = entries@;
                assert(now =~= orig.update(i as int, now[i as int]));
                assert(now[i as int].0@ == key@);
                assert(now[i as int].1 == c + 1);
                lemma_assoc_at(orig, i as int, key@);
                lemma_assoc_update(orig, i as int, now[i as int], key@);
                assert(counts_at_most(now, bound + 1)) by {
                    assert(forall|j: int|
                        0 <= j < now.len() && j != i ==> now[j] == #[trigger] orig[j]);
                }
                assert(keys_unique(now)) by {
                    assert(forall|j: int|
                        0 <= j < now.len() ==> (#[trigger] now[j]).0@ == orig[j].0@);
                }
            }
            return ;
        }
        i += 1;
    }
    let new_key = String::from_str(key);
    entries.push((new_key, 1));
    proof {
        let now = entries@;
        let x = now.last();
        assert(now =~= orig.push(x));
        assert(x.0@ == key@);
        assert(x.1 == 1);
        lemma_assoc_absent(orig, key@);
        lemma_assoc_push(orig, x, key@);
        assert(counts_at_most(now, bound + 1)) by {
            assert(forall|j: int| 0 <= j < orig.len() ==> now[j] == #[trigger] orig[j]);
        }
        assert(keys_unique(now)) by {
            assert(forall|j: int| 0 <= j < orig.len() ==> now[j] == #[trigger] orig[j]);
        }
    }
}

proof fn lemma_assoc_at(es: Seq<(String, u64)>, i: int, k: Seq<char>)
    requires
        0 <= i < es.len(),
        es[i].0@ == k,
        keys_unique(es),
    ensures
        assoc(es, k) == es[i].1,
    decreases i,
{
    if i == 0 {
    } else {
        assert(es[0].0@ != k);
        assert(es.skip(1)[i - 1] == es[i]);
        assert(keys_unique(es.skip(1))) by {
            assert(forall|a: int, b: int|
                0 <= a < b < es.skip(1).len() ==> es.skip(1)[a] == #[trigger] es[a + 1]
                    && es.skip(1)[b] == #[trigger] es[b + 1]);
        }
        lemma_assoc_at(es.skip(1), i - 1, k);
    }
}

proof fn lemma_assoc_absent(es: Seq<(String, u64)>, k: Seq<char>)
    requires
        forall|i: int| 0 <= i < es.len() ==> (#[trigger] es[i]).0@ != k,
    ensures
        assoc(es, k) == 0,
    decreases es.len(),
{
    if es.len() > 0 {
        assert(forall|i: int|
            0 <= i < es.skip(1).len() ==> es.skip(1)[i] == #[trigger] es[i + 1]);
        lemma_assoc_absent(es.skip(1), k);
    }
}

/// Totals and per-dimension distribution counts over the assets processed so
/// far. Distribution entries keep first-seen order.
#[derive(Debug)]
pub struct ProcessingSummary {
    pub total_videos: usize,
    pub total_size: u64,
    /// Total duration in centiseconds.
    pub total_duration_centis: u64,
    pub codecs: Vec<(String, u64)>,
    pub audio_codecs: Vec<(String, u64)>,
    pub resolutions: Vec<(String, u64)>,
}

impl ProcessingSummary {
    /// Distribution keys are unique and no count outruns the number of
    /// assets seen.
    pub open spec fn wf(&self) -> bool {
        &&& keys_unique(self.codecs@)
        &&& keys_unique(self.audio_codecs@)
        &&& keys_unique(self.resolutions@)
        &&& counts_at_most(self.codecs@, self.total_videos as int)
        &&& counts_at_most(self.audio_codecs@, self.total_videos as int)
        &&& counts_at_most(self.resolutions@, self.total_videos as int)
    }

    /// An empty summary.
    pub fn new() -> (r: ProcessingSummary)
        ensures
            r.wf(),
            r.total_videos == 0,
            r.total_size == 0,
            r.total_duration_centis == 0,
            r.codecs@.len() == 0,
            r.audio_codecs@.len() == 0,
            r.resolutions@.len() == 0,
    {
        ProcessingSummary {
            total_videos: 0,
            total_size: 0,
            total_duration_centis: 0,
            codecs: Vec::new(),
            audio_codecs: Vec::new(),
            resolutions: Vec::new(),
        }
    }

    /// Folds one asset into the totals and bumps its codec, audio-codec and
    /// resolution counts.
    pub fn add_video(&mut self, metadata: &VideoMetadata)
        requires
            old(self).wf(),
            old(self).total_videos < usize::MAX,
            old(self).total_size + metadata.size <= u64::MAX,
            old(self).total_duration_centis + metadata.duration_centis <= u64::MAX,
        ensures
            final(self).wf(),
            final(self).total_videos == old(self).total_videos + 1,
            final(self).total_size == old(self).total_size + metadata.size,
            final(self).total_duration_centis == old(self).total_duration_centis
                + metadata.duration_centis,
            assoc(final(self).codecs@, metadata.codec@) == assoc(
                old(self).codecs@,
                metadata.codec@,
            ) + 1,
            forall|k: Seq<char>| k != metadata.codec@ ==> assoc(final(self).codecs@, k) == assoc(
                old(self).codecs@,
                k,
            ),
            assoc(final(self).audio_codecs@, metadata.audio_codec@) == assoc(
                old(self).audio_codecs@,
                metadata.audio_codec@,
            ) + 1,
            forall|k: Seq<char>| k != metadata.audio_codec@ ==> assoc(
                final(self).audio_codecs@,
                k,
            ) == assoc(old(self).audio_codecs@, k),
            assoc(final(self).resolutions@, metadata.resolution@) == assoc(
                old(self).resolutions@,
                metadata.resolution@,
            ) + 1,
            forall|k: Seq<char>| k != metadata.resolution@ ==> assoc(
                final(self).resolutions@,
                k,
            ) == assoc(old(self).resolutions@, k),
    {
        let ghost bound = self.total_videos as int;
        self.total_videos = self.total_videos + 1;
        self.total_size = self.total_size + metadata.size;
        self.total_duration_centis = self.total_duration_centis + metadata.duration_centis;
        incr_count(&mut self.codecs, metadata.codec.as_str(), Ghost(bound));
        incr_count(&mut self.audio_codecs, metadata.audio_codec.as_str(), Ghost(bound));
        incr_count(&mut self.resolutions, metadata.resolution.as_str(), Ghost(bound));
    }

    /// The count recorded for a video codec; 0 when it was never seen.
    pub fn codec_count(&self, name: &str) -> (r: u64)
        requires
            self.wf(),
        ensures
            r as int == assoc(self.codecs@, name@),
    {
        count_of(&self.codecs, name)
    }

    /// The count recorded for an audio codec; 0 when it was never seen.
    pub fn audio_codec_count(&self, name: &str) -> (r: u64)
        requires
            self.wf(),
        ensures
            r as int == assoc(self.audio_codecs@, name@),
    {
        count_of(&self.audio_codecs, name)
    }

    /// The count recorded for a resolution; 0 when it was never seen.
    pub fn resolution_count(&self, name: &str) -> (r: u64)
        requires
            self.wf(),
        ensures
            r as int == assoc(self.resolutions@, name@),
    {
        count_of(&self.resolutions, name)
    }
}

/// The count stored under `key`, or 0.
fn count_of(entries: &Vec<(String, u64)>, key: &str) -> (r: u64)
    ensures
        r as int == assoc(entries@, key@),
{
    let ghost orig = entries@;
    let n = entries.len();
    let mut i: usize = 0;
    while i < n
        invariant
            i <= n,
            n == entries@.len(),
            entries@ == orig,
            forall|j: int| 0 <= j < i ==> (#[trigger] orig[j]).0@ != key@,
        decreases n - i,
    {
        if str_eq(entries[i].0.as_str(), key) {
            proof {
                lemma_assoc_first_hit(orig, i as int, key@);
            }
            return entries[i].1;
        }
        i += 1;
    }
    proof {
        lemma_assoc_absent(orig, key@);
    }
    0
}

proof fn lemma_assoc_first_hit(es: Seq<(String, u64)>, i: int, k: Seq<char>)
    requires
        0 <= i < es.len(),
        es[i].0@ == k,
        forall|j: int| 0 <= j < i ==> (#[trigger] es[j]).0@ != k,
    ensures
        assoc(es, k) == es[i].1,
    decreases i,
{
    if i > 0 {
        assert(es.skip(1)[i - 1] == es[i]);
        assert(forall|j: int|
            0 <= j < es.skip(1).len() ==> es.skip(1)[j] == #[trigger] es[j + 1]);
        lemma_assoc_first_hit(es.skip(1), i - 1, k);
    }
}

/// Number of violations in `vs` with severity `sev`.
pub open spec fn count_sev(vs: Seq<ComplianceViolation>, sev: ViolationSeverity) -> int
    decreases vs.len(),
{
    if vs.len() == 0 {
        0
    } else {
        count_sev(vs.drop_last(), sev) + if vs.last().severity == sev {
            1int
        } else {
            0int
        }
    }
}

/// The views of scored file entries.
pub open spec fn score_recs(v: Seq<(String, u8)>) -> Seq<(Seq<char>, u8)> {
    v.map_values(|e: (String, u8)| (e.0@, e.1))
}

/// The entries of `v` whose score is exactly `s`, in their original order.
pub open spec fn entries_with_score(v: Seq<(Seq<char>, u8)>, s: int) -> Seq<(Seq<char>, u8)>
    decreases v.len(),
{
    if v.len() == 0 {
        Seq::empty()
    } else if v.last().1 == s {
        entries_with_score(v.drop_last(), s).push(v.last())
    } else {
        entries_with_score(v.drop_last(), s)
    }
}

/// The groups of `v` for scores `s ..= 255`, ascending, each group in
/// original order: the canonical stable ascending ordering.
pub open spec fn by_ascending_score(v: Seq<(Seq<char>, u8)>, s: int) -> Seq<(Seq<char>, u8)>
    decreases 256 - s,
{
    if s > 255 {
        Seq::empty()
    } else {
        entries_with_score(v, s) + by_ascending_score(v, s + 1)
    }
}

/// The groups of `v` for scores `s ..< e`, ascending.
pub open spec fn by_score_range(v: Seq<(Seq<char>, u8)>, s: int, e: int) -> Seq<(Seq<char>, u8)>
    decreases e - s,
{
    if s >= e {
        Seq::empty()
    } else {
        entries_with_score(v, s) + by_score_range(v, s + 1, e)
    }
}

proof fn lemma_by_empty(s: int)
    requires
        0 <= s,
    ensures
        by_ascending_score(Seq::<(Seq<char>, u8)>::empty(), s) =~= Seq::<(Seq<char>, u8)>::empty(),
    decreases 256 - s,
{
    if s <= 255 {
        lemma_by_empty(s + 1);
    }
}

proof fn lemma_ews_scores(v: Seq<(Seq<char>, u8)>, s: int)
    ensures
        forall|t: int|
            0 <= t < entries_with_score(v, s).len() ==> (#[trigger] entries_with_score(v, s)[t]).1
                == s,
    decreases v.len(),
{
    if v.len() > 0 {
        lemma_ews_scores(v.drop_last(), s);
        let rest = entries_with_score(v.drop_last(), s);
        assert forall|t: int| 0 <= t < entries_with_score(v, s).len() implies (
        #[trigger] entries_with_score(v, s)[t]).1 == s by {
            if v.last().1 == s {
                if t < rest.len() {
                    assert(entries_with_score(v, s)[t] == rest[t]);
                } else {
                    assert(entries_with_score(v, s)[t] == v.last());
                }
            } else {
                assert(entries_with_score(v, s)[t] == rest[t]);
            }
        }
    }
}

proof fn lemma_range_scores(v: Seq<(Seq<char>, u8)>, s: int, e: int)
    ensures
        forall|t: int|
            0 <= t < by_score_range(v, s, e).len() ==> s <= (#[trigger] by_score_range(
                v,
                s,
                e,
            )[t]).1 < e,
    decreases e - s,
{
    if s < e {
        lemma_ews_scores(v, s);
        lemma_range_scores(v, s + 1, e);
        assert forall|t: int| 0 <= t < by_score_range(v, s, e).len() implies s <= (
        #[trigger] by_score_range(v, s, e)[t]).1 < e by {
            let g = entries_with_score(v, s);
            if t < g.len() {
                assert(by_score_range(v, s, e)[t] == g[t]);
            } else {
                assert(by_score_range(v, s, e)[t] == by_score_range(v, s + 1, e)[t - g.len()]);
            }
        }
    }
}

proof fn lemma_by_scores(v: Seq<(Seq<char>, u8)>, s: int)
    ensures
        forall|t: int|
            0 <= t < by_ascending_score(v, s).len() ==> (#[trigger] by_ascending_score(
                v,
                s,
            )[t]).1 >= s,
    decreases 256 - s,
{
    if s <= 255 {
        lemma_ews_scores(v, s);
        lemma_by_scores(v, s + 1);
        assert forall|t: int| 0 <= t < by_ascending_score(v, s).len() implies (
        #[trigger] by_ascending_score(v, s)[t]).1 >= s by {
            let g = entries_with_score(v, s);
            if t < g.len() {
                assert(by_ascending_score(v, s)[t] == g[t]);
            } else {
                assert(by_ascending_score(v, s)[t] == by_ascending_score(v, s + 1)[t - g.len()]);
            }
        }
    }
}

proof fn lemma_by_split(v: Seq<(Seq<char>, u8)>, s: int, e: int)
    requires
        0 <= s <= e <= 256,
    ensures
        by_ascending_score(v, s) =~= by_score_range(v, s, e) + by_ascending_score(v, e),
    decreases e - s,
{
    if s == e {
        assert(by_score_range(v, s, e).len() == 0);
        assert(by_ascending_score(v, s) =~= Seq::<(Seq<char>, u8)>::empty() + by_ascending_score(
            v,
            e,
        ));
    } else {
        lemma_by_split(v, s + 1, e);
        assert(by_ascending_score(v, s) == entries_with_score(v, s) + by_ascending_score(
            v,
            s + 1,
        ));
        assert(by_ascending_score(v, s) =~= (entries_with_score(v, s) + by_score_range(
            v,
            s + 1,
            e,
        )) + by_ascending_score(v, e));
        assert(by_score_range(v, s, e) =~= entries_with_score(v, s) + by_score_range(v, s + 1, e));
    }
}

proof fn lemma_ews_push(p: Seq<(Seq<char>, u8)>, x: (Seq<char>, u8), s: int)
    ensures
        entries_with_score(p.push(x), s) == (if x.1 == s {
            entries_with_score(p, s).push(x)
        } else {
            entries_with_score(p, s)
        }),
{
    assert(p.push(x).drop_last() =~= p);
    assert(p.push(x).last() == x);
}

proof fn lemma_by_push_above(p: Seq<(Seq<char>, u8)>, x: (Seq<char>, u8), s: int)
    requires
        x.1 < s,
    ensures
        by_ascending_score(p.push(x), s) =~= by_ascending_score(p, s),
    decreases 256 - s,
{
    if s <= 255 {
        lemma_ews_push(p, x, s);
        lemma_by_push_above(p, x, s + 1);
    }
}

proof fn lemma_range_push(p: Seq<(Seq<char>, u8)>, x: (Seq<char>, u8), s: int)
    requires
        0 <= s <= x.1,
    ensures
        by_score_range(p.push(x), s, x.1 + 1) =~= by_score_range(p, s, x.1 + 1).push(x),
    decreases x.1 + 1 - s,
{
    lemma_ews_push(p, x, s);
    if s == x.1 {
        assert(by_score_range(p.push(x), s, x.1 + 1) == entries_with_score(p.push(x), s)
            + by_score_range(p.push(x), s + 1, x.1 + 1));
        assert(by_score_range(p.push(x), s + 1, x.1 + 1).len() == 0);
        assert(by_score_range(p, s + 1, x.1 + 1).len() == 0);
        assert(by_score_range(p.push(x), s, x.1 + 1) =~= (entries_with_score(p, s)
            + by_score_range(p, s + 1, x.1 + 1)).push(x));
    } else {
        lemma_range_push(p, x, s + 1);
        assert(by_score_range(p.push(x), s, x.1 + 1) =~= (entries_with_score(p, s)
            + by_score_range(p, s + 1, x.1 + 1)).push(x));
    }
}

/// Appending `x` to the input extends the canonical ordering by inserting
/// `x` after every entry of its score and before every greater score.
proof fn lemma_canonical_push(p: Seq<(Seq<char>, u8)>, x: (Seq<char>, u8))
    ensures
        by_ascending_score(p.push(x), 0) =~= by_score_range(p, 0, x.1 + 1) + seq![x]
            + by_ascending_score(p, x.1 + 1),
{
    lemma_by_split(p.push(x), 0, x.1 + 1);
    lemma_range_push(p, x, 0);
    lemma_by_push_above(p, x, x.1 + 1);
    assert(by_ascending_score(p.push(x), 0) =~= by_score_range(p.push(x), 0, x.1 + 1)
        + by_ascending_score(p.push(x), x.1 + 1));
    assert(by_score_range(p, 0, x.1 + 1).push(x) =~= by_score_range(p, 0, x.1 + 1) + seq![x]);
}

/// The mean score in centi-points, rounded to nearest: 8000 means 80.00.
pub open spec fn spec_avg_centis(sum: nat, n: nat) -> int {
    if n == 0 {
        0
    } else {
        ((200 * sum + n) / (2 * n)) as int
    }
}

/// Running compliance statistics over a batch of analysed assets. The mean
/// score is kept exactly, as a sum and a count.
#[derive(Debug)]
pub struct ComplianceSummary {
    pub total_files: usize,
    pub compliant_files: usize,
    pub non_compliant_files: usize,
    /// Sum of all recorded scores; the mean is derived from it exactly.
    pub score_sum: u64,
    pub critical_violations: usize,
    pub warning_violations: usize,
    pub info_violations: usize,
    /// `(file name, score)` in the order results were recorded.
    pub files_by_score: Vec<(String, u8)>,
}

impl ComplianceSummary {
    /// Counts agree with the number of recorded files, and the score sum is
    /// bounded by the largest possible per-file score.
    pub open spec fn wf(&self) -> bool {
        &&& self.compliant_files + self.non_compliant_files == self.total_files
        &&& self.files_by_score@.len() == self.total_files
        &&& self.score_sum <= 255 * (self.total_files as int)
    }

    /// An empty summary.
    pub fn new() -> (r: ComplianceSummary)
        ensures
            r.wf(),
            r.total_files == 0,
            r.compliant_files == 0,
            r.non_compliant_files == 0,
            r.score_sum == 0,
            r.critical_violations == 0,
            r.warning_violations == 0,
            r.info_violations == 0,
            r.files_by_score@.len() == 0,
    {
        ComplianceSummary {
            total_files: 0,
            compliant_files: 0,
            non_compliant_files: 0,
            score_sum: 0,
            critical_violations: 0,
            warning_violations: 0,
            info_violations: 0,
            files_by_score: Vec::new(),
        }
    }

    /// Folds one analysis into the statistics: totals, compliant split,
    /// exact score sum, per-severity violation counts, and the scored file
    /// table.
    pub fn add_result(&mut self, result: &ComplianceResult, filename: &str)
        requires
            old(self).wf(),
            old(self).total_files < usize::MAX,
            old(self).score_sum + result.score <= u64::MAX,
            old(self).critical_violations + result.violations@.len() <= usize::MAX,
            old(self).warning_violations + result.violations@.len() <= usize::MAX,
            old(self).info_violations + result.violations@.len() <= usize::MAX,
        ensures
            final(self).wf(),
            final(self).total_files == old(self).total_files + 1,
            final(self).score_sum == old(self).score_sum + result.score,
            final(self).compliant_files == old(self).compliant_files + (if result.is_compliant {
                1int
            } else {
                0int
            }),
            final(self).non_compliant_files == old(self).non_compliant_files + (
            if result.is_compliant {
                0int
            } else {
                1int
            }),
            final(self).critical_violations == old(self).critical_violations + count_sev(
                result.violations@,
                ViolationSeverity::Critical,
            ),
            final(self).warning_violations == old(self).warning_violations + count_sev(
                result.violations@,
                ViolationSeverity::Warning,
            ),
            final(self).info_violations == old(self).info_violations + count_sev(
                result.violations@,
                ViolationSeverity::Info,
            ),
            score_recs(final(self).files_by_score@) == score_recs(old(self).files_by_score@).push(
                (filename@, result.score),
            ),
    {
        self.total_files = self.total_files + 1;
        self.score_sum = self.score_sum + result.score as u64;
        let entry_name = String::from_str(filename);
        self.files_by_score.push((entry_name, result.score));
        let ghost fbs = self.files_by_score@;
        proof {
            assert(score_recs(fbs) =~= score_recs(old(self).files_by_score@).push(
                (filename@, result.score),
            ));
        }
        if result.is_compliant {
            self.compliant_files = self.compliant_files + 1;
        } else {
            self.non_compliant_files = self.non_compliant_files + 1;
        }

        let ghost vs = result.violations@;
        let n = result.violations.len();
        let mut i: usize = 0;
        while i < n
            invariant
                i <= n,
                n == vs.len(),
                vs == result.violations@,
                self.critical_violations == old(self).critical_violations + count_sev(
                    vs.take(i as int),
                    ViolationSeverity::Critical,
                ),
                self.warning_violations == old(self).warning_violations + count_sev(
                    vs.take(i as int),
                    ViolationSeverity::Warning,
                ),
                self.info_violations == old(self).info_violations + count_sev(
                    vs.take(i as int),
                    ViolationSeverity::Info,
                ),
                old(self).critical_violations + vs.len() <= usize::MAX,
                old(self).warning_violations + vs.len() <= usize::MAX,
                old(self).info_violations + vs.len() <= usize::MAX,
                self.total_files == old(self).total_files + 1,
                self.score_sum == old(self).score_sum + result.score,
                self.compliant_files == old(self).compliant_files + (if result.is_compliant {
                    1int
                } else {
                    0int
                }),
                self.non_compliant_files == old(self).non_compliant_files + (
                if result.is_compliant {
                    0int
                } else {
                    1int
                }),
                self.files_by_score@ == fbs,
                score_recs(fbs) == score_recs(old(self).files_by_score@).push(
                    (filename@, result.score),
                ),
                old(self).wf(),
                old(self).total_files < usize::MAX,
            decreases n - i,
        {
            proof {
                lemma_count_sev_bound(vs, i as int, ViolationSeverity::Critical);
                lemma_count_sev_bound(vs, i as int, ViolationSeverity::Warning);
                lemma_count_sev_bound(vs, i as int, ViolationSeverity::Info);
                assert(vs.take(i + 1).drop_last() =~= vs.take(i as int));
                assert(vs.take(i + 1).last() == vs[i as int]);
            }
            match result.violations[i].severity {
                ViolationSeverity::Critical => {
                    self.critical_violations = self.critical_violations + 1;
                },
                ViolationSeverity::Warning => {
                    self.warning_violations = self.warning_violations + 1;
                },
                ViolationSeverity::Info => {
                    self.info_violations = self.info_violations + 1;
                },
            }
            i += 1;
        }
        proof {
            assert(vs.take(vs.len() as int) =~= vs);
        }
    }

    /// The mean score in centi-points, rounded to nearest; 0 when nothing
    /// was recorded.
    pub fn average_score_centis(&self) -> (r: u64)
        requires
            self.wf(),
        ensures
            r as int == spec_avg_centis(self.score_sum as nat, self.total_files as nat),
    {
        if self.total_files == 0 {
            return 0;
        }
        let sum = self.score_sum as u128;
        let n = self.total_files as u128;
        let q = (200 * sum + n) / (2 * n);
        proof {
            let a = 200 * (sum as int) + n as int;
            let d = 2 * (n as int);
            vstd::arithmetic::div_mod::lemma_div_is_ordered(a, 51001 * n as int, d);
            vstd::arithmetic::div_mod::lemma_fundamental_div_mod(51001 * n as int, d);
            assert((51001 * n as int) / d < 25501) by {
                if (51001 * n as int) / d >= 25501 {
                    assert(((51001 * n as int) / d) * d >= 25501 * d) by (nonlinear_arith)
                        requires
                            (51001 * n as int) / d >= 25501,
                            d > 0,
                    ;
                    assert(25501 * d == 51002 * n as int);
                    assert((51001 * n as int) % d >= 0);
                }
            }
        }
        q as u64
    }

    /// The scored file table, ascending by score; ties keep their relative
    /// recording order. The result is a permutation of the table, equal to
    /// the canonical stable ordering: the table's equal-score runs
    /// concatenated by ascending score.
    pub fn sorted_by_score(&self) -> (r: Vec<(String, u8)>)
        ensures
            r@.len() == self.files_by_score@.len(),
            forall|a: int, b: int| 0 <= a < b < r@.len() ==> (#[trigger] r@[a]).1 <= (
            #[trigger] r@[b]).1,
            score_recs(r@).to_multiset() == score_recs(self.files_by_score@).to_multiset(),
            score_recs(r@) == by_ascending_score(score_recs(self.files_by_score@), 0),
    {
        broadcast use vstd::seq_lib::to_multiset_insert;
        broadcast use vstd::seq_lib::to_multiset_build;

        let src = &self.files_by_score;
        let ghost input = src@;
        let n = src.len();
        let mut out: Vec<(String, u8)> = Vec::new();
        proof {
            assert(score_recs(out@) =~= score_recs(input.take(0)));
            lemma_by_empty(0);
            assert(score_recs(input.take(0)) =~= Seq::<(Seq<char>, u8)>::empty());
        }
        let mut i: usize = 0;
        while i < n
            invariant
                i <= n,
                n == input.len(),
                src@ == input,
                input == self.files_by_score@,
                out@.len() == i,
                forall|a: int, b: int| 0 <= a < b < out@.len() ==> (#[trigger] out@[a]).1 <= (
                #[trigger] out@[b]).1,
                score_recs(out@).to_multiset() == score_recs(input.take(i as int)).to_multiset(),
                score_recs(out@) == by_ascending_score(score_recs(input.take(i as int)), 0),
            decreases n - i,
        {
            let name = src[i].0.clone();
            let score = src[i].1;
            let ghost before = out@;

            let mut pos: usize = 0;
            while pos < out.len() && out[pos].1 <= score
                invariant
                    pos <= out@.len(),
                    out@ == before,
                    forall|t: int| 0 <= t < pos ==> (#[trigger] out@[t]).1 <= score,
                decreases out@.len() - pos,
            {
                pos += 1;
            }
            out.insert(pos, (name, score));
            proof {
                let now = out@;
                assert(now == before.insert(pos as int, (now[pos as int].0, score)));
                assert(now[pos as int].0@ == input[i as int].0@);
                assert forall|a: int, b: int|
                    0 <= a < b < now.len() implies (#[trigger] now[a]).1 <= (
                #[trigger] now[b]).1 by {
                    if b < pos {
                    } else if a >= pos + 1 {
                        assert(now[a] == before[a - 1]);
                        assert(now[b] == before[b - 1]);
                    } else if a < pos && b == pos {
                        assert(now[a] == before[a]);
                    } else if a == pos {
                        assert(now[b] == before[b - 1]);
                        assert(b - 1 >= pos);
                        if pos < before.len() {
                            assert(before[pos as int].1 > score);
                            assert(before[b - 1].1 >= before[pos as int].1);
                        }
                    } else {
                        assert(now[a] == before[a]);
                        assert(now[b] == before[b - 1]);
                        assert(b - 1 >= pos);
                        if pos < before.len() {
                            assert(before[pos as int].1 > score);
                        }
                    }
                }
                let rec = (input[i as int].0@, score);
                assert(score_recs(now) =~= score_recs(before).insert(pos as int, rec));
                assert(score_recs(input.take(i + 1)) =~= score_recs(input.take(i as int)).push(
                    rec,
                ));
                vstd::seq_lib::to_multiset_insert(score_recs(before), pos as int, rec);
                vstd::seq_lib::to_multiset_build(score_recs(input.take(i as int)), rec);
                assert(score_recs(now).to_multiset() =~= score_recs(
                    before,
                ).to_multiset().insert(rec));
                assert(score_recs(input.take(i + 1)).to_multiset() =~= score_recs(
                    input.take(i as int),
                ).to_multiset().insert(rec));

                // The insertion point is exactly the boundary between the
                // groups of scores up to `score` and the greater ones.
                let prefix = score_recs(input.take(i as int));
                let lower = by_score_range(prefix, 0, score + 1);
                let upper = by_ascending_score(prefix, score + 1);
                lemma_by_split(prefix, 0, score + 1);
                lemma_range_scores(prefix, 0, score + 1);
                lemma_by_scores(prefix, score + 1);
                assert(score_recs(before) =~= lower + upper);
                assert(forall|t: int|
                    0 <= t < before.len() ==> (#[trigger] score_recs(before)[t]).1 == before[
                        t
                    ].1);
                assert(pos as int == lower.len()) by {
                    if (pos as int) < lower.len() {
                        assert(score_recs(before)[pos as int] == lower[pos as int]);
                        assert(before[pos as int].1 <= score);
                    }
                    if (pos as int) > lower.len() {
                        assert(lower.len() < before.len());
                        assert(score_recs(before)[lower.len() as int] == upper[0]);
                        assert(before[lower.len() as int].1 <= score);
                        assert(upper[0].1 > score);
                    }
                }
                lemma_canonical_push(prefix, rec);
                assert(score_recs(now) =~= lower + seq![rec] + upper);
                assert(score_recs(now) =~= by_ascending_score(prefix.push(rec), 0));
                assert(score_recs(input.take(i + 1)) == prefix.push(rec));
            }
            i += 1;
        }
        proof {
            assert(input.take(n as int) =~= input);
            assert(score_recs(input.take(n as int)) == score_recs(input));
        }
        out
    }
}

proof fn lemma_count_sev_bound(vs: Seq<ComplianceViolation>, i: int, sev: ViolationSeverity)
    requires
        0 <= i <= vs.len(),
    ensures
        0 <= count_sev(vs.take(i), sev) <= i,
    decreases i,
{
    if i > 0 {
        assert(vs.take(i).drop_last() =~= vs.take(i - 1));
        lemma_count_sev_bound(vs, i - 1, sev);
    } else {
        assert(vs.take(0).len() == 0);
    }
}

/// The views of failed-file entries.
pub open spec fn fail_recs(v: Seq<(String, String)>) -> Seq<(Seq<char>, Seq<char>)> {
    v.map_values(|e: (String, String)| (e.0@, e.1@))
}

/// Per-path outcomes of a batch run: fixed, skipped because already
/// compliant, or failed with the error's rendering.
#[derive(Debug)]
pub struct BatchProcessor {
    pub total_files: usize,
    pub processed_files: usize,
    pub failed_files: Vec<(String, String)>,
    pub fixed_files: Vec<String>,
    pub skipped_files: Vec<String>,
}

impl BatchProcessor {
    /// A tracker expecting `total_files` assets.
    pub fn new(total_files: usize) -> (r: BatchProcessor)
        ensures
            r.total_files == total_files,
            r.processed_files == 0,
            r.failed_files@.len() == 0,
            r.fixed_files@.len() == 0,
            r.skipped_files@.len() == 0,
    {
        BatchProcessor {
            total_files,
            processed_files: 0,
            failed_files: Vec::new(),
            fixed_files: Vec::new(),
            skipped_files: Vec::new(),
        }
    }

    /// Records one asset's outcome: a produced output path counts as fixed,
    /// `None` as skipped, an error as failed with its rendered message.
    pub fn process_file_result(&mut self, path: String, result: Result<Option<String>, VideoError>)
        requires
            old(self).processed_files < usize::MAX,
        ensures
            final(self).total_files == old(self).total_files,
            final(self).processed_files == old(self).processed_files + 1,
            (match result {
                Result::Ok(Option::Some(fixed)) => final(self).fixed_files@ == old(
                    self,
                ).fixed_files@.push(fixed) && final(self).skipped_files@ == old(
                    self,
                ).skipped_files@ && final(self).failed_files@ == old(self).failed_files@,
                Result::Ok(Option::None) => final(self).skipped_files@ == old(
                    self,
                ).skipped_files@.push(path) && final(self).fixed_files@ == old(
                    self,
                ).fixed_files@ && final(self).failed_files@ == old(self).failed_files@,
                Result::Err(e) => fail_recs(final(self).failed_files@) == fail_recs(
                    old(self).failed_files@,
                ).push((path@, spec_message(&e))) && final(self).fixed_files@ == old(
                    self,
                ).fixed_files@ && final(self).skipped_files@ == old(self).skipped_files@,
            }),
    {
        self.processed_files = self.processed_files + 1;
        match result {
            Result::Ok(Option::Some(fixed_path)) => {
                self.fixed_files.push(fixed_path);
            },
            Result::Ok(Option::None) => {
                self.skipped_files.push(path);
            },
            Result::Err(e) => {
                let ghost p = path@;
                let msg = e.message();
                self.failed_files.push((path, msg));
                proof {
                    assert(fail_recs(self.failed_files@) =~= fail_recs(
                        old(self).failed_files@,
                    ).push((p, spec_message(&e))));
                }
            },
        }
    }
}

/// What an external size formatter returns for a byte count; the rendering
/// depends on the value alone.
pub uninterp spec fn human_size_of(bytes: nat) -> Seq<char>;

/// Relies on `humansize::format_size` with the decimal option set: renders a
/// byte count using decimal prefixes.
#[verifier::external_body]
fn human_size(bytes: u64) -> (r: String)
    ensures
        r@ == human_size_of(bytes as nat),
{
    humansize::format_size(bytes, humansize::DECIMAL)
}

/// One distribution block: a line per entry, indented, count first, joined
/// with newlines.
pub open spec fn dist_lines(es: Seq<(String, u64)>, mid: Seq<char>) -> Seq<char>
    decreases es.len(),
{
    if es.len() == 0 {
        Seq::empty()
    } else if es.len() == 1 {
        "  "@ + dec_str(es[0].1 as nat) + mid + es[0].0@
    } else {
        dist_lines(es.drop_last(), mid) + "\n"@ + "  "@ + dec_str(es.last().1 as nat) + mid
            + es.last().0@
    }
}

/// The full plain-text conversion report for `summary`.
pub open spec fn spec_report_text(summary: &ProcessingSummary) -> Seq<char> {
    "Conversion Report\n================\nTotal Videos: "@ + dec_str(summary.total_videos as nat)
        + "\nTotal Duration: "@ + spec_format_duration(summary.total_duration_centis as nat)
        + "\nTotal Size: "@ + human_size_of(summary.total_size as nat)
        + "\n\nVideo Codec Distribution:\n"@ + dist_lines(summary.codecs@, " videos using "@)
        + "\nAudio Codec Distribution:\n"@ + dist_lines(summary.audio_codecs@, " videos using "@)
        + "\nResolution Distribution:\n"@ + dist_lines(summary.resolutions@, " videos at "@)
        + "\n"@
}

/// Appends one distribution block to `r`.
fn push_dist_lines(r: &mut String, entries: &Vec<(String, u64)>, mid: &str)
    ensures
        final(r)@ == old(r)@ + dist_lines(entries@, mid@),
{
    let n = entries.len();
    let mut i: usize = 0;
    while i < n
        invariant
            i <= n,
            n == entries@.len(),
            r@ == old(r)@ + dist_lines(entries@.take(i as int), mid@),
        decreases n - i,
    {
        if i > 0 {
            r.append("\n");
        }
        r.append("  ");
        push_u64(r, entries[i].1);
        r.append(mid);
        r.append(entries[i].0.as_str());
        proof {
            assert(entries@.take(i + 1).drop_last() =~= entries@.take(i as int));
            assert(entries@.take(i + 1).last() == entries@[i as int]);
            assert(r@ =~= old(r)@ + dist_lines(entries@.take(i + 1), mid@));
        }
        i += 1;
    }
    proof {
        assert(entries@.take(n as int) =~= entries@);
    }
}

/// The plain-text conversion report: totals, then the three distribution
/// blocks, in recording order.
pub fn conversion_report_text(summary: &ProcessingSummary) -> (r: String)
    ensures
        r@ == spec_report_text(summary),
{
    let mut r = String::from_str("Conversion Report\n================\nTotal Videos: ");
    push_u64(&mut r, summary.total_videos as u64);
    r.append("\nTotal Duration: ");
    let dur = format_duration(summary.total_duration_centis);
    r.append(dur.as_str());
    r.append("\nTotal Size: ");
    let size = human_size(summary.total_size);
    r.append(size.as_str());
    r.append("\n\nVideo Codec Distribution:\n");
    push_dist_lines(&mut r, &summary.codecs, " videos using ");
    r.append("\nAudio Codec Distribution:\n");
    push_dist_lines(&mut r, &summary.audio_codecs, " videos using ");
    r.append("\nResolution Distribution:\n");
    push_dist_lines(&mut r, &summary.resolutions, " videos at ");
    r.append("\n");
    proof {
        assert(r@ =~= spec_report_text(summary));
    }
    r
}

} // verus!
