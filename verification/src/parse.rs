//! Verified defensive number parsing: unsigned decimal integers, and
//! fixed-point decimals read to a given number of fraction digits with the
//! remainder truncated. Probe fields arrive as strings and are parsed with
//! these; anything unparseable is rejected rather than guessed at.

use vstd::prelude::*;

verus! {

/// `c` is an ASCII decimal digit.
pub open spec fn is_digit(c: char) -> bool {
    48 <= (c as u32) && (c as u32) <= 57
}

/// Every character of `s` is an ASCII decimal digit.
pub open spec fn all_digits(s: Seq<char>) -> bool {
    forall|i: int| 0 <= i < s.len() ==> is_digit(#[trigger] s[i])
}

/// The integer denoted by the digit string `s`, most significant first.
/// Meaningful only when `all_digits(s)`.
pub open spec fn digits_val(s: Seq<char>) -> int
    decreases s.len(),
{
    if s.len() == 0 {
        0
    } else {
        digits_val(s.drop_last()) * 10 + (s.last() as u32) - 48
    }
}

/// Ten to the `k`.
pub open spec fn pow10(k: nat) -> int
    decreases k,
{
    if k == 0 {
        1
    } else {
        10 * pow10((k - 1) as nat)
    }
}

/// Index of the first `'.'` in `s`, or `-1` when there is none.
pub open spec fn spec_first_dot(s: Seq<char>) -> int
    decreases s.len(),
{
    if s.len() == 0 {
        -1
    } else if s[0] == '.' {
        0
    } else if spec_first_dot(s.skip(1)) < 0 {
        -1
    } else {
        spec_first_dot(s.skip(1)) + 1
    }
}

/// `s` is a well-formed unsigned decimal: digits with at most one dot, and
/// at least one digit somewhere.
pub open spec fn valid_decimal(s: Seq<char>) -> bool {
    let d = spec_first_dot(s);
    if d < 0 {
        s.len() > 0 && all_digits(s)
    } else {
        let ip = s.subrange(0, d);
        let fp = s.subrange(d + 1, s.len() as int);
        ip.len() + fp.len() > 0 && all_digits(ip) && all_digits(fp)
    }
}

/// The value of the fraction digits `fp` scaled to `p` places: the first `p`
/// digits are kept (padded with zeros when fewer), the rest truncated.
pub open spec fn frac_scaled(fp: Seq<char>, p: nat) -> int {
    if fp.len() >= p {
        digits_val(fp.take(p as int))
    } else {
        digits_val(fp) * pow10((p - fp.len()) as nat)
    }
}

/// The value of the decimal string `s` scaled by `10^p`, fraction truncated
/// beyond `p` places. Meaningful only when `valid_decimal(s)`.
pub open spec fn spec_scaled_val(s: Seq<char>, p: nat) -> int {
    let d = spec_first_dot(s);
    if d < 0 {
        digits_val(s) * pow10(p)
    } else {
        digits_val(s.subrange(0, d)) * pow10(p) + frac_scaled(
            s.subrange(d + 1, s.len() as int),
            p,
        )
    }
}

proof fn lemma_digits_val_nonneg(s: Seq<char>)
    requires
        all_digits(s),
    ensures
        digits_val(s) >= 0,
    decreases s.len(),
{
    if s.len() > 0 {
        assert(all_digits(s.drop_last())) by {
            assert(forall|i: int|
                0 <= i < s.len() - 1 ==> s.drop_last()[i] == #[trigger] s[i]);
        }
        lemma_digits_val_nonneg(s.drop_last());
    }
}

proof fn lemma_digits_val_prefix(s: Seq<char>, j: int)
    requires
        all_digits(s),
        0 <= j <= s.len(),
    ensures
        digits_val(s.take(j)) <= digits_val(s),
    decreases s.len() - j,
{
    if j < s.len() {
        assert(s.take(j + 1).drop_last() =~= s.take(j));
        assert(s.take(j + 1).last() == s[j]);
        assert(all_digits(s.take(j))) by {
            assert(forall|i: int| 0 <= i < j ==> s.take(j)[i] == #[trigger] s[i]);
        }
        lemma_digits_val_nonneg(s.take(j));
        assert(digits_val(s.take(j + 1)) == digits_val(s.take(j)) * 10 + (s[j] as u32) - 48);
        assert(digits_val(s.take(j)) <= digits_val(s.take(j + 1)));
        lemma_digits_val_prefix(s, j + 1);
    } else {
        assert(s.take(j) =~= s);
    }
}

/// Parses `s` as an unsigned decimal integer: returns the value exactly when
/// `s` is a nonempty digit string whose value fits in `u64`, `None`
/// otherwise.
pub fn parse_u64_dec(s: &str) -> (r: Option<u64>)
    ensures
        r is Some <==> (s@.len() > 0 && all_digits(s@) && digits_val(s@) <= u64::MAX),
        r matches Some(v) ==> v as int == digits_val(s@),
{
    let len = s.unicode_len();
    if len == 0 {
        return None;
    }
    let mut acc: u64 = 0;
    let mut i: usize = 0;
    while i < len
        invariant
            i <= len,
            len == s@.len(),
            len > 0,
            all_digits(s@.take(i as int)),
            acc as int == digits_val(s@.take(i as int)),
        decreases len - i,
    {
        let c = s.get_char(i);
        let u = c as u32;
        if u < 48 || u > 57 {
            assert(!all_digits(s@)) by {
                assert(!is_digit(s@[i as int]));
            }
            return None;
        }
        let d: u64 = (u - 48) as u64;
        proof {
            assert(s@.take(i + 1).drop_last() =~= s@.take(i as int));
            assert(s@.take(i + 1).last() == s@[i as int]);
            assert(all_digits(s@.take(i + 1))) by {
                assert(forall|t: int|
                    0 <= t < i + 1 ==> s@.take(i + 1)[t] == #[trigger] s@[t]);
            }
        }
        let next = match acc.checked_mul(10) {
            Some(m) => m.checked_add(d),
            None => None,
        };
        match next {
            Some(v) => {
                acc = v;
            },
            None => {
                proof {
                    assert(digits_val(s@.take(i + 1)) > u64::MAX);
                    if all_digits(s@) {
                        lemma_digits_val_prefix(s@, i + 1);
                    }
                }
                return None;
            },
        }
        i += 1;
    }
    proof {
        assert(s@.take(len as int) =~= s@);
    }
    Some(acc)
}

/// Parses `s` as an unsigned decimal with up to one dot, returning its value
/// scaled by `10^frac_digits`, truncating any fraction beyond that. `Some`
/// exactly when `s` is well formed and the scaled value fits in `u64`.
pub fn parse_decimal_scaled(s: &str, frac_digits: usize) -> (r: Option<u64>)
    requires
        frac_digits <= 6,
    ensures
        r is Some <==> (valid_decimal(s@) && spec_scaled_val(s@, frac_digits as nat)
            <= u64::MAX),
        r matches Some(v) ==> v as int == spec_scaled_val(s@, frac_digits as nat),
{
    let len = s.unicode_len();

    // Locate the first dot, if any.
    let mut dot: usize = len;
    let mut have_dot = false;
    let mut i: usize = 0;
    while i < len
        invariant
            i <= len,
            len == s@.len(),
            !have_dot ==> forall|t: int| 0 <= t < i ==> s@[t] != '.',
            !have_dot ==> dot == len,
            have_dot ==> dot < i && s@[dot as int] == '.' && forall|t: int|
                0 <= t < dot ==> s@[t] != '.',
        decreases len - i,
    {
        if !have_dot && s.get_char(i) == '.' {
            dot = i;
            have_dot = true;
        }
        i += 1;
    }
    proof {
        if have_dot {
            lemma_first_dot_at(s@, dot as int);
        } else {
            lemma_no_dot(s@);
        }
    }
    let ghost d = spec_first_dot(s@);
    let ghost p = frac_digits as nat;
    let ghost ip = if d < 0 {
        s@
    } else {
        s@.subrange(0, d)
    };
    let ghost fp = if d < 0 {
        Seq::<char>::empty()
    } else {
        s@.subrange(d + 1, s@.len() as int)
    };

    let int_end = if have_dot {
        dot
    } else {
        len
    };

    if int_end == 0 && (!have_dot || dot + 1 == len) {
        // No digits at all: empty string or a lone dot.
        proof {
            assert(ip.len() == 0);
            assert(fp.len() == 0);
        }
        return None;
    }

    // Integer part.
    let mut acc: u64 = 0;
    let mut i: usize = 0;
    while i < int_end
        invariant
            i <= int_end <= len,
            len == s@.len(),
            frac_digits <= 6,
            p == frac_digits as nat,
            d == spec_first_dot(s@),
            have_dot ==> int_end == dot && dot == d && 0 <= d < len,
            !have_dot ==> int_end == len && d < 0,
            ip == (if d < 0 { s@ } else { s@.subrange(0, d) }),
            ip.len() == int_end,
            forall|t: int| 0 <= t < ip.len() ==> ip[t] == s@[t],
            all_digits(ip.take(i as int)),
            acc as int == digits_val(ip.take(i as int)),
        decreases int_end - i,
    {
        let c = s.get_char(i);
        let u = c as u32;
        if u < 48 || u > 57 {
            assert(!all_digits(ip)) by {
                assert(!is_digit(ip[i as int]));
            }
            return None;
        }
        let dg: u64 = (u - 48) as u64;
        proof {
            assert(ip.take(i + 1).drop_last() =~= ip.take(i as int));
            assert(ip.take(i + 1).last() == ip[i as int]);
            assert(all_digits(ip.take(i + 1))) by {
                assert(forall|t: int|
                    0 <= t < i + 1 ==> ip.take(i + 1)[t] == #[trigger] ip[t]);
            }
        }
        let next = match acc.checked_mul(10) {
            Some(m) => m.checked_add(dg),
            None => None,
        };
        match next {
            Some(v) => {
                acc = v;
            },
            None => {
                proof {
                    assert(digits_val(ip.take(i + 1)) > u64::MAX);
                    if valid_decimal(s@) {
                        assert(all_digits(ip));
                        lemma_digits_val_prefix(ip, i + 1);
                        lemma_scaled_lower_bound(s@, p);
                    }
                }
                return None;
            },
        }
        i += 1;
    }
    proof {
        assert(ip.take(ip.len() as int) =~= ip);
    }

    // Fraction part: every character must be a digit; only the first
    // `frac_digits` of them contribute.
    let mut frac_acc: u64 = 0;
    let mut kept: usize = 0;
    if have_dot {
        let mut j: usize = dot + 1;
        while j < len
            invariant
                dot + 1 <= j <= len,
                len == s@.len(),
                frac_digits <= 6,
                p == frac_digits as nat,
                d == spec_first_dot(s@),
                have_dot && dot == d && 0 <= d < len,
                fp == s@.subrange(d + 1, s@.len() as int),
                fp.len() == len - dot - 1,
                forall|t: int| 0 <= t < fp.len() ==> fp[t] == s@[d + 1 + t],
                kept <= frac_digits,
                kept as int == (if j - dot - 1 <= frac_digits {
                    j - dot - 1
                } else {
                    frac_digits as int
                }),
                all_digits(fp.take(j - dot - 1)),
                frac_acc as int == digits_val(fp.take(kept as int)),
                (frac_acc as int) < pow10(kept as nat),
            decreases len - j,
        {
            let c = s.get_char(j);
            let u = c as u32;
            if u < 48 || u > 57 {
                assert(!all_digits(fp)) by {
                    assert(!is_digit(fp[j - dot - 1]));
                }
                return None;
            }
            proof {
                let t = j - dot - 1;
                assert(fp.take(t + 1).drop_last() =~= fp.take(t));
                assert(fp.take(t + 1).last() == fp[t]);
                assert(all_digits(fp.take(t + 1))) by {
                    assert(forall|q: int|
                        0 <= q < t + 1 ==> fp.take(t + 1)[q] == #[trigger] fp[q]);
                }
            }
            if kept < frac_digits {
                proof {
                    lemma_pow10_bound(kept as nat);
                    assert(pow10((kept + 1) as nat) == 10 * pow10(kept as nat));
                    assert(fp.take(kept + 1).drop_last() =~= fp.take(kept as int));
                    assert(fp.take(kept + 1).last() == fp[kept as int]);
                    assert(kept as int == j - dot - 1);
                }
                frac_acc = frac_acc * 10 + (u - 48) as u64;
                kept += 1;
            }
            j += 1;
        }
        proof {
            assert(fp.take(fp.len() as int) =~= fp);
        }
    }

    // Combine: value = integer part * 10^p + scaled fraction.
    let scale: u64 = pow10_exec(frac_digits);
    let mut frac_part: u64 = frac_acc;
    if have_dot {
        if len - dot - 1 < frac_digits {
            // Fewer fraction digits than places: pad with zeros.
            proof {
                assert(kept as int == fp.len());
                assert(fp.take(kept as int) =~= fp);
                lemma_pow10_mul(kept as nat, (frac_digits - kept) as nat);
                lemma_pow10_bound(p);
                lemma_digits_val_nonneg(fp);
            }
            let pad = pow10_exec(frac_digits - kept);
            proof {
                assert(frac_acc * pad < pow10(p)) by (nonlinear_arith)
                    requires
                        (frac_acc as int) < pow10(kept as nat),
                        frac_acc >= 0,
                        pad as int == pow10((frac_digits - kept) as nat),
                        pad >= 1,
                        pow10(kept as nat) * pow10((frac_digits - kept) as nat) == pow10(
                            frac_digits as nat,
                        ),
                        p == frac_digits as nat,
                ;
                assert(pow10(p) <= 1000000);
            }
            frac_part = frac_acc * pad;
            proof {
                assert(frac_part as int == digits_val(fp) * pow10((p - fp.len()) as nat));
                assert(frac_part as int == frac_scaled(fp, p));
            }
        } else {
            proof {
                assert(kept as int == frac_digits as int);
                assert(fp.len() >= p);
                assert(frac_part as int == frac_scaled(fp, p));
            }
        }
    }
    proof {
        lemma_pow10_bound(p);
        if have_dot {
            lemma_frac_scaled_bound(fp, p);
        } else {
            assert(frac_part == 0);
        }
    }

    let hi = match acc.checked_mul(scale) {
        Some(m) => m.checked_add(frac_part),
        None => None,
    };
    proof {
        assert(valid_decimal(s@)) by {
            if d < 0 {
                assert(ip == s@);
                assert(s@.len() > 0);
            } else {
                assert(!(ip.len() == 0 && fp.len() == 0));
            }
        }
        if d < 0 {
            assert(spec_scaled_val(s@, p) == digits_val(s@) * pow10(p));
            assert(acc as int == digits_val(s@));
        } else {
            assert(spec_scaled_val(s@, p) == digits_val(ip) * pow10(p) + frac_scaled(fp, p));
            assert(acc as int == digits_val(ip));
            assert(frac_part as int == frac_scaled(fp, p));
        }
    }
    match hi {
        Some(v) => {
            Some(v)
        },
        None => {
            proof {
                lemma_digits_val_nonneg(ip);
                assert(spec_scaled_val(s@, p) > u64::MAX);
            }
            None
        },
    }
}

/// Ten to the `k`, executable.
fn pow10_exec(k: usize) -> (r: u64)
    requires
        k <= 6,
    ensures
        r as int == pow10(k as nat),
        r >= 1,
{
    proof {
        lemma_pow10_values();
    }
    if k == 0 {
        1
    } else if k == 1 {
        10
    } else if k == 2 {
        100
    } else if k == 3 {
        1000
    } else if k == 4 {
        10000
    } else if k == 5 {
        100000
    } else {
        1000000
    }
}

proof fn lemma_pow10_values()
    ensures
        pow10(0) == 1,
        pow10(1) == 10,
        pow10(2) == 100,
        pow10(3) == 1000,
        pow10(4) == 10000,
        pow10(5) == 100000,
        pow10(6) == 1000000,
{
    assert(pow10(0) == 1);
    assert(pow10(1) == 10 * pow10(0));
    assert(pow10(2) == 10 * pow10(1));
    assert(pow10(3) == 10 * pow10(2));
    assert(pow10(4) == 10 * pow10(3));
    assert(pow10(5) == 10 * pow10(4));
    assert(pow10(6) == 10 * pow10(5));
}

proof fn lemma_pow10_bound(k: nat)
    requires
        k <= 6,
    ensures
        1 <= pow10(k) <= 1000000,
{
    lemma_pow10_values();
    if k == 0 {
    } else if k == 1 {
    } else if k == 2 {
    } else if k == 3 {
    } else if k == 4 {
    } else if k == 5 {
    } else {
        assert(k == 6);
    }
}

proof fn lemma_digits_val_bound(s: Seq<char>)
    requires
        all_digits(s),
    ensures
        digits_val(s) < pow10(s.len()),
    decreases s.len(),
{
    if s.len() == 0 {
    } else {
        assert(all_digits(s.drop_last())) by {
            assert(forall|i: int|
                0 <= i < s.len() - 1 ==> s.drop_last()[i] == #[trigger] s[i]);
        }
        lemma_digits_val_bound(s.drop_last());
        assert(pow10(s.len()) == 10 * pow10((s.len() - 1) as nat));
    }
}

proof fn lemma_frac_nonneg(fp: Seq<char>, p: nat)
    requires
        all_digits(fp),
        p <= 6,
    ensures
        frac_scaled(fp, p) >= 0,
{
    lemma_pow10_bound(p);
    if fp.len() >= p {
        assert(all_digits(fp.take(p as int))) by {
            assert(forall|i: int| 0 <= i < p ==> fp.take(p as int)[i] == #[trigger] fp[i]);
        }
        lemma_digits_val_nonneg(fp.take(p as int));
    } else {
        lemma_digits_val_nonneg(fp);
        if p != fp.len() {
            lemma_pow10_bound((p - fp.len()) as nat);
        }
    }
}

proof fn lemma_frac_scaled_bound(fp: Seq<char>, p: nat)
    requires
        all_digits(fp),
        p <= 6,
    ensures
        0 <= frac_scaled(fp, p) < pow10(p),
{
    lemma_frac_nonneg(fp, p);
    if fp.len() >= p {
        assert(all_digits(fp.take(p as int))) by {
            assert(forall|i: int| 0 <= i < p ==> fp.take(p as int)[i] == #[trigger] fp[i]);
        }
        lemma_digits_val_bound(fp.take(p as int));
        assert(fp.take(p as int).len() == p);
    } else {
        lemma_digits_val_bound(fp);
        lemma_pow10_mul((p - fp.len()) as nat, fp.len());
        assert(digits_val(fp) < pow10(fp.len()));
        lemma_pow10_bound((p - fp.len()) as nat);
        assert(digits_val(fp) * pow10((p - fp.len()) as nat) < pow10(fp.len()) * pow10(
            (p - fp.len()) as nat,
        )) by (nonlinear_arith)
            requires
                digits_val(fp) < pow10(fp.len()),
                pow10((p - fp.len()) as nat) >= 1,
        ;
    }
}

proof fn lemma_pow10_mul(a: nat, b: nat)
    ensures
        pow10(a) * pow10(b) == pow10(a + b),
    decreases a,
{
    if a == 0 {
    } else {
        lemma_pow10_mul((a - 1) as nat, b);
        assert(pow10(a) * pow10(b) == 10 * pow10((a - 1) as nat) * pow10(b));
        assert(10 * pow10((a - 1) as nat) * pow10(b) == 10 * (pow10((a - 1) as nat) * pow10(b)))
            by (nonlinear_arith);
        assert((a - 1) + b == (a + b) - 1);
    }
}

proof fn lemma_scaled_lower_bound(s: Seq<char>, p: nat)
    requires
        p <= 6,
        valid_decimal(s),
    ensures
        spec_scaled_val(s, p) >= (if spec_first_dot(s) < 0 {
            digits_val(s)
        } else {
            digits_val(s.subrange(0, spec_first_dot(s)))
        }),
{
    let d = spec_first_dot(s);
    lemma_pow10_bound(p);
    if d < 0 {
        lemma_digits_val_nonneg(s);
        assert(digits_val(s) * pow10(p) >= digits_val(s) * 1) by (nonlinear_arith)
            requires
                digits_val(s) >= 0,
                pow10(p) >= 1,
        ;
    } else {
        let ip = s.subrange(0, d);
        let fp = s.subrange(d + 1, s.len() as int);
        lemma_digits_val_nonneg(ip);
        lemma_frac_nonneg(fp, p);
        assert(digits_val(ip) * pow10(p) >= digits_val(ip) * 1) by (nonlinear_arith)
            requires
                digits_val(ip) >= 0,
                pow10(p) >= 1,
        ;
    }
}

proof fn lemma_first_dot_at(s: Seq<char>, k: int)
    requires
        0 <= k < s.len(),
        s[k] == '.',
        forall|t: int| 0 <= t < k ==> s[t] != '.',
    ensures
        spec_first_dot(s) == k,
    decreases s.len(),
{
    if k == 0 {
    } else {
        assert(s.skip(1)[k - 1] == s[k]);
        assert(forall|t: int| 0 <= t < k - 1 ==> s.skip(1)[t] == #[trigger] s[t + 1]);
        lemma_first_dot_at(s.skip(1), k - 1);
    }
}

proof fn lemma_no_dot(s: Seq<char>)
    requires
        forall|t: int| 0 <= t < s.len() ==> s[t] != '.',
    ensures
        spec_first_dot(s) == -1,
    decreases s.len(),
{
    if s.len() > 0 {
        assert(forall|t: int| 0 <= t < s.skip(1).len() ==> s.skip(1)[t] == #[trigger] s[t + 1]);
        lemma_no_dot(s.skip(1));
    }
}


/// A well-formed decimal denotes a non-negative value at any scale.
pub proof fn lemma_scaled_val_nonneg(s: Seq<char>, p: nat)
    requires
        p <= 6,
    ensures
        valid_decimal(s) ==> spec_scaled_val(s, p) >= 0,
{
    if valid_decimal(s) {
        lemma_scaled_lower_bound(s, p);
        let d = spec_first_dot(s);
        if d < 0 {
            lemma_digits_val_nonneg(s);
        } else {
            lemma_digits_val_nonneg(s.subrange(0, d));
        }
    }
}

} // verus!
