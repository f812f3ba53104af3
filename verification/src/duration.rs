//! Duration rendering and transcoder-progress time parsing. Durations are
//! carried as centiseconds; rendering truncates, never rounds, because the
//! value is already integral.

use vstd::prelude::*;
use crate::parse::{parse_decimal_scaled, spec_scaled_val, valid_decimal};
use crate::text::{dec2, find_str, push_2digit, spec_find_sub};

verus! {

/// `HH:MM:SS.cc` with every field zero-padded to two digits; hours widen
/// beyond two digits when needed.
pub open spec fn spec_format_duration(c: nat) -> Seq<char> {
    dec2(c / 360000) + ":"@ + dec2((c % 360000) / 6000) + ":"@ + dec2((c % 6000) / 100) + "."@
        + dec2(c % 100)
}

/// Renders a duration given in centiseconds as `HH:MM:SS.cc`.
pub fn format_duration(total_centis: u64) -> (r: String)
    ensures
        r@ == spec_format_duration(total_centis as nat),
{
    let hours = total_centis / 360000;
    let minutes = (total_centis % 360000) / 6000;
    let secs = (total_centis % 6000) / 100;
    let centis = total_centis % 100;

    let mut r = String::new();
    push_2digit(&mut r, hours);
    r.append(":");
    push_2digit(&mut r, minutes);
    r.append(":");
    push_2digit(&mut r, secs);
    r.append(".");
    push_2digit(&mut r, centis);
    proof {
        assert(r@ =~= spec_format_duration(total_centis as nat));
    }
    r
}

/// ASCII whitespace, as it appears in transcoder progress lines.
pub open spec fn spec_is_space(c: char) -> bool {
    c == ' ' || c == '\t' || c == '\n' || c == '\r'
}

/// Index of the first `':'` in `s`, or `-1`.
pub open spec fn first_colon(s: Seq<char>) -> int
    decreases s.len(),
{
    if s.len() == 0 {
        -1
    } else if s[0] == ':' {
        0
    } else if first_colon(s.skip(1)) < 0 {
        -1
    } else {
        first_colon(s.skip(1)) + 1
    }
}

/// Index of the first whitespace character in `s`, or `-1`.
pub open spec fn first_space(s: Seq<char>) -> int
    decreases s.len(),
{
    if s.len() == 0 {
        -1
    } else if spec_is_space(s[0]) {
        0
    } else if first_space(s.skip(1)) < 0 {
        -1
    } else {
        first_space(s.skip(1)) + 1
    }
}

/// Index of the first non-whitespace character in `s`, or `-1`.
pub open spec fn first_nonspace(s: Seq<char>) -> int
    decreases s.len(),
{
    if s.len() == 0 {
        -1
    } else if !spec_is_space(s[0]) {
        0
    } else if first_nonspace(s.skip(1)) < 0 {
        -1
    } else {
        first_nonspace(s.skip(1)) + 1
    }
}

proof fn lemma_first_colon_at(s: Seq<char>, k: int)
    requires
        0 <= k < s.len(),
        s[k] == ':',
        forall|t: int| 0 <= t < k ==> s[t] != ':',
    ensures
        first_colon(s) == k,
    decreases s.len(),
{
    if k > 0 {
        assert(s.skip(1)[k - 1] == s[k]);
        assert(forall|t: int| 0 <= t < k - 1 ==> s.skip(1)[t] == #[trigger] s[t + 1]);
        lemma_first_colon_at(s.skip(1), k - 1);
    }
}

proof fn lemma_first_colon_none(s: Seq<char>)
    requires
        forall|t: int| 0 <= t < s.len() ==> s[t] != ':',
    ensures
        first_colon(s) == -1,
    decreases s.len(),
{
    if s.len() > 0 {
        assert(forall|t: int| 0 <= t < s.skip(1).len() ==> s.skip(1)[t] == #[trigger] s[t + 1]);
        lemma_first_colon_none(s.skip(1));
    }
}

proof fn lemma_first_space_at(s: Seq<char>, k: int)
    requires
        0 <= k < s.len(),
        spec_is_space(s[k]),
        forall|t: int| 0 <= t < k ==> !spec_is_space(#[trigger] s[t]),
    ensures
        first_space(s) == k,
    decreases s.len(),
{
    if k > 0 {
        assert(s.skip(1)[k - 1] == s[k]);
        assert(forall|t: int| 0 <= t < k - 1 ==> s.skip(1)[t] == #[trigger] s[t + 1]);
        lemma_first_space_at(s.skip(1), k - 1);
    }
}

proof fn lemma_first_space_none(s: Seq<char>)
    requires
        forall|t: int| 0 <= t < s.len() ==> !spec_is_space(#[trigger] s[t]),
    ensures
        first_space(s) == -1,
    decreases s.len(),
{
    if s.len() > 0 {
        assert(forall|t: int| 0 <= t < s.skip(1).len() ==> s.skip(1)[t] == #[trigger] s[t + 1]);
        lemma_first_space_none(s.skip(1));
    }
}

proof fn lemma_first_nonspace_at(s: Seq<char>, k: int)
    requires
        0 <= k < s.len(),
        !spec_is_space(s[k]),
        forall|t: int| 0 <= t < k ==> spec_is_space(#[trigger] s[t]),
    ensures
        first_nonspace(s) == k,
    decreases s.len(),
{
    if k > 0 {
        assert(s.skip(1)[k - 1] == s[k]);
        assert(forall|t: int| 0 <= t < k - 1 ==> s.skip(1)[t] == #[trigger] s[t + 1]);
        lemma_first_nonspace_at(s.skip(1), k - 1);
    }
}

proof fn lemma_first_nonspace_none(s: Seq<char>)
    requires
        forall|t: int| 0 <= t < s.len() ==> spec_is_space(#[trigger] s[t]),
    ensures
        first_nonspace(s) == -1,
    decreases s.len(),
{
    if s.len() > 0 {
        assert(forall|t: int| 0 <= t < s.skip(1).len() ==> s.skip(1)[t] == #[trigger] s[t + 1]);
        lemma_first_nonspace_none(s.skip(1));
    }
}

/// A numeric field with one optional leading `'+'` removed.
pub open spec fn field_body(s: Seq<char>) -> Seq<char> {
    if s.len() > 0 && s[0] == '+' {
        s.skip(1)
    } else {
        s
    }
}

/// The centisecond value denoted by an `H:M:S` token. Each field is an
/// unsigned decimal with an optional leading `'+'`; `None` unless the token
/// has exactly three well-formed fields. This is narrower than a full
/// floating-point field grammar: negative fields have no representation in
/// unsigned centiseconds, and exponent or `inf`/`nan` forms are treated as
/// unparseable.
pub open spec fn spec_token_centis(token: Seq<char>) -> Option<int> {
    let c1 = first_colon(token);
    if c1 < 0 {
        Option::None
    } else {
        let hs = token.take(c1);
        let rest = token.skip(c1 + 1);
        let c2 = first_colon(rest);
        if c2 < 0 {
            Option::None
        } else {
            let ms = rest.take(c2);
            let ss = rest.skip(c2 + 1);
            if first_colon(ss) >= 0 {
                Option::None
            } else if !valid_decimal(field_body(hs)) || !valid_decimal(field_body(ms))
                || !valid_decimal(field_body(ss)) {
                Option::None
            } else {
                Option::Some(
                    spec_scaled_val(field_body(hs), 2) * 3600 + spec_scaled_val(field_body(ms), 2)
                        * 60 + spec_scaled_val(field_body(ss), 2),
                )
            }
        }
    }
}

/// The centisecond value read from a transcoder progress line: the text
/// after the first `time=` up to the next `time=` or the end, its first
/// whitespace-delimited word, parsed as `H:M:S`; `None` when any stage
/// fails.
pub open spec fn spec_time_centis(line: Seq<char>) -> Option<int> {
    let f = spec_find_sub(line, "time="@);
    if f < 0 {
        Option::None
    } else {
        let rest = line.skip(f + 5);
        let g = spec_find_sub(rest, "time="@);
        let seg = if g < 0 {
            rest
        } else {
            rest.take(g)
        };
        let a = first_nonspace(seg);
        if a < 0 {
            Option::None
        } else {
            let after = seg.skip(a);
            let e = first_space(after);
            let token = if e < 0 {
                after
            } else {
                after.take(e)
            };
            spec_token_centis(token)
        }
    }
}

/// Position of the first non-whitespace character in `s`, when there is
/// one.
fn find_nonspace_pos(s: &str) -> (r: Option<usize>)
    ensures
        r matches Some(i) ==> i < s@.len() && i as int == first_nonspace(s@),
        r is None ==> first_nonspace(s@) == -1,
{
    let len = s.unicode_len();
    let mut i: usize = 0;
    while i < len
        invariant
            i <= len,
            len == s@.len(),
            forall|t: int| 0 <= t < i ==> spec_is_space(#[trigger] s@[t]),
        decreases len - i,
    {
        let c = s.get_char(i);
        if !(c == ' ' || c == '\t' || c == '\n' || c == '\r') {
            proof {
                lemma_first_nonspace_at(s@, i as int);
            }
            return Some(i);
        }
        i += 1;
    }
    proof {
        lemma_first_nonspace_none(s@);
    }
    None
}

/// Position of the first whitespace character in `s`, when there is one.
fn find_space_pos(s: &str) -> (r: Option<usize>)
    ensures
        r matches Some(i) ==> i < s@.len() && i as int == first_space(s@),
        r is None ==> first_space(s@) == -1,
{
    let len = s.unicode_len();
    let mut i: usize = 0;
    while i < len
        invariant
            i <= len,
            len == s@.len(),
            forall|t: int| 0 <= t < i ==> !spec_is_space(#[trigger] s@[t]),
        decreases len - i,
    {
        let c = s.get_char(i);
        if c == ' ' || c == '\t' || c == '\n' || c == '\r' {
            proof {
                lemma_first_space_at(s@, i as int);
            }
            return Some(i);
        }
        i += 1;
    }
    proof {
        lemma_first_space_none(s@);
    }
    None
}

/// Position of the first `':'` in `s`, when there is one.
fn find_colon_pos(s: &str) -> (r: Option<usize>)
    ensures
        r matches Some(i) ==> i < s@.len() && i as int == first_colon(s@),
        r is None ==> first_colon(s@) == -1,
{
    let len = s.unicode_len();
    let mut i: usize = 0;
    while i < len
        invariant
            i <= len,
            len == s@.len(),
            forall|t: int| 0 <= t < i ==> s@[t] != ':',
        decreases len - i,
    {
        if s.get_char(i) == ':' {
            proof {
                lemma_first_colon_at(s@, i as int);
            }
            return Some(i);
        }
        i += 1;
    }
    proof {
        lemma_first_colon_none(s@);
    }
    None
}

/// `s` with one leading `'+'` removed, when it has one.
fn strip_plus(s: &str) -> (r: &str)
    ensures
        r@ == field_body(s@),
{
    let len = s.unicode_len();
    if len > 0 && s.get_char(0) == '+' {
        let t = s.substring_char(1, len);
        proof {
            assert(t@ =~= s@.skip(1));
        }
        t
    } else {
        s
    }
}

/// Extracts the centisecond timestamp from a transcoder progress line.
/// Returns the exact value whenever the line carries a well-formed `time=`
/// field whose value fits in `u64`. Fields are unsigned decimals with an
/// optional leading `'+'`; see `spec_token_centis` for the stated narrowing
/// against a full floating-point field grammar.
pub fn parse_time(line: &str) -> (r: Option<u64>)
    ensures
        r matches Some(v) ==> spec_time_centis(line@) == Option::Some(v as int),
        r is Some <==> (spec_time_centis(line@) matches Some(t) && t <= u64::MAX),
{
    let len = line.unicode_len();
    let f = match find_str(line, "time=") {
        Some(i) => i,
        None => {
            return None;
        },
    };
    proof {
        reveal_strlit("time=");
        assert("time="@.len() == 5);
    }
    let rest = line.substring_char(f + 5, len);
    proof {
        assert(rest@ =~= line@.skip(f + 5));
    }
    let rlen = rest.unicode_len();
    let g = match find_str(rest, "time=") {
        Some(j) => j,
        None => rlen,
    };
    let seg = rest.substring_char(0, g);
    let ghost gseg = if spec_find_sub(rest@, "time="@) < 0 {
        rest@
    } else {
        rest@.take(spec_find_sub(rest@, "time="@))
    };
    proof {
        assert(seg@ =~= gseg);
    }
    let seg_len = seg.unicode_len();

    // The token: skip leading whitespace, then read to the next whitespace.
    let a = match find_nonspace_pos(seg) {
        Some(i) => i,
        None => {
            return None;
        },
    };
    let after = seg.substring_char(a, seg_len);
    proof {
        assert(after@ =~= seg@.skip(a as int));
    }
    let after_len = after.unicode_len();
    let token: &str = match find_space_pos(after) {
        Some(e) => {
            let t = after.substring_char(0, e);
            proof {
                assert(t@ =~= after@.take(first_space(after@)));
            }
            t
        },
        None => after,
    };

    // Split H:M:S.
    let token_len = token.unicode_len();
    let c1 = match find_colon_pos(token) {
        Some(i) => i,
        None => {
            return None;
        },
    };
    let hs = token.substring_char(0, c1);
    let rest2 = token.substring_char(c1 + 1, token_len);
    proof {
        assert(hs@ =~= token@.take(c1 as int));
        assert(rest2@ =~= token@.skip(c1 + 1));
    }
    let rest2_len = rest2.unicode_len();
    let c2 = match find_colon_pos(rest2) {
        Some(i) => i,
        None => {
            return None;
        },
    };
    let ms = rest2.substring_char(0, c2);
    let ss = rest2.substring_char(c2 + 1, rest2_len);
    proof {
        assert(ms@ =~= rest2@.take(c2 as int));
        assert(ss@ =~= rest2@.skip(c2 + 1));
    }
    if let Some(_) = find_colon_pos(ss) {
        return None;
    }

    let hv = match parse_decimal_scaled(strip_plus(hs), 2) {
        Some(v) => v,
        None => {
            proof {
                lemma_scaled_val_nonneg_parts(hs@, ms@, ss@);
            }
            return None;
        },
    };
    let mv = match parse_decimal_scaled(strip_plus(ms), 2) {
        Some(v) => v,
        None => {
            proof {
                lemma_scaled_val_nonneg_parts(hs@, ms@, ss@);
            }
            return None;
        },
    };
    let sv = match parse_decimal_scaled(strip_plus(ss), 2) {
        Some(v) => v,
        None => {
            proof {
                lemma_scaled_val_nonneg_parts(hs@, ms@, ss@);
            }
            return None;
        },
    };
    let total = match hv.checked_mul(3600) {
        Some(h) => match mv.checked_mul(60) {
            Some(m) => match h.checked_add(m) {
                Some(hm) => hm.checked_add(sv),
                None => None,
            },
            None => None,
        },
        None => None,
    };
    proof {
        lemma_scaled_val_nonneg_parts(hs@, ms@, ss@);
    }
    match total {
        Some(v) => Some(v),
        None => None,
    }
}

/// Each well-formed field of an `H:M:S` token denotes a non-negative value.
proof fn lemma_scaled_val_nonneg_parts(hs: Seq<char>, ms: Seq<char>, ss: Seq<char>)
    ensures
        valid_decimal(field_body(hs)) ==> spec_scaled_val(field_body(hs), 2) >= 0,
        valid_decimal(field_body(ms)) ==> spec_scaled_val(field_body(ms), 2) >= 0,
        valid_decimal(field_body(ss)) ==> spec_scaled_val(field_body(ss), 2) >= 0,
{
    crate::parse::lemma_scaled_val_nonneg(field_body(hs), 2);
    crate::parse::lemma_scaled_val_nonneg(field_body(ms), 2);
    crate::parse::lemma_scaled_val_nonneg(field_body(ss), 2);
}

} // verus!
