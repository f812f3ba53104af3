//! Verified character and string utilities: equality, substring search,
//! ASCII lowercasing, and decimal rendering of integers.

use vstd::prelude::*;

verus! {

/// Character-for-character equality of two string slices.
pub fn str_eq(a: &str, b: &str) -> (r: bool)
    ensures
        r == (a@ == b@),
{
    let alen = a.unicode_len();
    let blen = b.unicode_len();
    if alen != blen {
        assert(a@ != b@) by {
            assert(a@.len() != b@.len());
        }
        return false;
    }
    let mut i: usize = 0;
    while i < alen
        invariant
            i <= alen,
            alen == a@.len(),
            alen == b@.len(),
            forall|j: int| 0 <= j < i ==> a@[j] == b@[j],
        decreases alen - i,
    {
        if a.get_char(i) != b.get_char(i) {
            return false;
        }
        i += 1;
    }
    proof {
        assert(a@ =~= b@);
    }
    true
}

/// `n` occurs as a contiguous run of characters inside `h`.
pub open spec fn spec_contains(h: Seq<char>, n: Seq<char>) -> bool {
    exists|i: int| 0 <= i && i + n.len() <= h.len() && #[trigger] h.subrange(i, i + n.len() as int)
        == n
}

/// Substring search, as `str::contains` does for string needles.
pub fn contains_str(h: &str, n: &str) -> (r: bool)
    ensures
        r == spec_contains(h@, n@),
{
    let hl = h.unicode_len();
    let nl = n.unicode_len();
    if nl > hl {
        return false;
    }
    if nl == 0 {
        proof {
            assert(h@.subrange(0, 0 + n@.len() as int) =~= n@);
        }
        return true;
    }
    let mut i: usize = 0;
    while i <= hl - nl
        invariant
            1 <= nl <= hl,
            hl == h@.len(),
            nl == n@.len(),
            i <= hl - nl + 1,
            forall|k: int| 0 <= k < i ==> #[trigger] h@.subrange(k, k + n@.len() as int) != n@,
        decreases hl - i,
    {
        let mut j: usize = 0;
        let mut hit = true;
        while j < nl
            invariant
                hl == h@.len(),
                nl == n@.len(),
                i + nl <= hl,
                j <= nl,
                hit ==> forall|t: int| 0 <= t < j ==> h@[i + t] == n@[t],
                !hit ==> h@.subrange(i as int, i + nl as int) != n@,
            decreases nl - j,
        {
            if h.get_char(i + j) != n.get_char(j) {
                proof {
                    assert(h@.subrange(i as int, i + nl as int)[j as int] == h@[i + j]);
                }
                hit = false;
                j = nl;
            } else {
                j += 1;
            }
        }
        if hit {
            proof {
                assert(h@.subrange(i as int, i + nl as int) =~= n@);
            }
            return true;
        }
        i += 1;
    }
    false
}

/// Lower-case image of one character, ASCII letters only.
pub open spec fn lower_char(c: char) -> char {
    if 65 <= (c as u32) && (c as u32) <= 90 {
        (((c as u32) + 32) as u8) as char
    } else {
        c
    }
}

/// Lower-case image of a character sequence, ASCII letters only. This is
/// narrower than Unicode case folding: a non-ASCII upper-case letter is
/// kept unchanged. Catalog terms and probe values are ASCII, where the two
/// agree.
pub open spec fn spec_lower(s: Seq<char>) -> Seq<char> {
    s.map_values(|c: char| lower_char(c))
}

/// Relies on `String::push`: appends the given character to the end of the
/// string.
#[verifier::external_body]
pub(crate) fn push_char(s: &mut String, c: char)
    ensures
        final(s)@ == old(s)@ + seq![c],
{
    s.push(c);
}

/// Copy of `s` with every ASCII upper-case letter replaced by its lower-case
/// counterpart; all other characters are kept. Unlike full Unicode
/// lowercasing, non-ASCII letters pass through unchanged.
pub fn ascii_lower(s: &str) -> (r: String)
    ensures
        r@ == spec_lower(s@),
{
    let len = s.unicode_len();
    let mut r = String::new();
    let mut i: usize = 0;
    while i < len
        invariant
            i <= len,
            len == s@.len(),
            r@ == spec_lower(s@.take(i as int)),
        decreases len - i,
    {
        let c = s.get_char(i);
        let u = c as u32;
        let lc: char = if 65 <= u && u <= 90 {
            ((u + 32) as u8) as char
        } else {
            c
        };
        assert(lc == lower_char(c));
        push_char(&mut r, lc);
        proof {
            assert(spec_lower(s@.take(i + 1)) =~= spec_lower(s@.take(i as int)) + seq![
                lower_char(s@[i as int]),
            ]);
        }
        i += 1;
    }
    proof {
        assert(s@.take(len as int) =~= s@);
    }
    r
}

/// The decimal digit character for `d`, which must lie in `0 ..= 9`.
pub open spec fn dec_digit(d: int) -> char {
    ((48 + d) as u8) as char
}

/// Decimal rendering of `n`, most significant digit first, no leading zeros
/// except for `n == 0` itself.
pub open spec fn dec_str(n: nat) -> Seq<char>
    decreases n,
{
    if n < 10 {
        seq![dec_digit(n as int)]
    } else {
        dec_str(n / 10) + seq![dec_digit((n % 10) as int)]
    }
}

/// Decimal rendering of `n` padded with a leading zero to at least two digits.
pub open spec fn dec2(n: nat) -> Seq<char> {
    if n < 10 {
        seq!['0'] + dec_str(n)
    } else {
        dec_str(n)
    }
}

/// Appends the decimal rendering of `n` to `s`.
pub fn push_u64(s: &mut String, n: u64)
    ensures
        final(s)@ == old(s)@ + dec_str(n as nat),
    decreases n,
{
    if n >= 10 {
        push_u64(s, n / 10);
    }
    let d: u8 = 48 + (n % 10) as u8;
    push_char(s, d as char);
    proof {
        if n < 10 {
            assert(final(s)@ =~= old(s)@ + dec_str(n as nat));
        } else {
            assert(final(s)@ =~= old(s)@ + dec_str(n as nat));
        }
    }
}

/// Appends the decimal rendering of `n`, left-padded with `'0'` to at least
/// two digits.
pub fn push_2digit(s: &mut String, n: u64)
    ensures
        final(s)@ == old(s)@ + dec2(n as nat),
{
    if n < 10 {
        push_char(s, '0');
    }
    push_u64(s, n);
    proof {
        assert(final(s)@ =~= old(s)@ + dec2(n as nat));
    }
}

/// The decimal rendering of `n` as a fresh string.
pub fn u64_to_string(n: u64) -> (r: String)
    ensures
        r@ == dec_str(n as nat),
{
    let mut r = String::new();
    push_u64(&mut r, n);
    proof {
        assert(r@ =~= dec_str(n as nat));
    }
    r
}

/// The elements of `v`, joined with `", "` between adjacent elements.
pub open spec fn spec_join_comma(v: Seq<String>) -> Seq<char>
    decreases v.len(),
{
    if v.len() == 0 {
        Seq::empty()
    } else if v.len() == 1 {
        v[0]@
    } else {
        spec_join_comma(v.drop_last()) + ", "@ + v.last()@
    }
}

/// Joins the strings of `v` with `", "` separators.
pub fn join_comma(v: &Vec<String>) -> (r: String)
    ensures
        r@ == spec_join_comma(v@),
{
    let mut r = String::new();
    let mut i: usize = 0;
    while i < v.len()
        invariant
            i <= v@.len(),
            r@ == spec_join_comma(v@.take(i as int)),
        decreases v@.len() - i,
    {
        if i > 0 {
            r.append(", ");
        }
        r.append(v[i].as_str());
        proof {
            assert(v@.take(i + 1).drop_last() =~= v@.take(i as int));
            assert(v@.take(i + 1).last() == v@[i as int]);
        }
        i += 1;
    }
    proof {
        assert(v@.take(v@.len() as int) =~= v@);
    }
    r
}


/// Index of the last `'.'` in `s`, or `-1` when there is none.
pub open spec fn spec_last_dot(s: Seq<char>) -> int
    decreases s.len(),
{
    if s.len() == 0 {
        -1
    } else if s.last() == '.' {
        s.len() - 1
    } else {
        spec_last_dot(s.drop_last())
    }
}

/// Position of the last `'.'` in `s`, when there is one.
pub fn last_dot(s: &str) -> (r: Option<usize>)
    ensures
        r matches Some(i) ==> spec_last_dot(s@) == i && i < s@.len() && s@[i as int] == '.',
        r is None ==> spec_last_dot(s@) == -1,
{
    let len = s.unicode_len();
    proof {
        assert(s@.take(len as int) =~= s@);
    }
    let mut i: usize = len;
    while i > 0
        invariant
            i <= len,
            len == s@.len(),
            spec_last_dot(s@) == spec_last_dot(s@.take(i as int)),
        decreases i,
    {
        let c = s.get_char(i - 1);
        proof {
            assert(s@.take(i as int).last() == s@[i - 1]);
            assert(s@.take(i as int).drop_last() =~= s@.take(i - 1));
        }
        if c == '.' {
            return Some(i - 1);
        }
        i -= 1;
    }
    proof {
        assert(s@.take(0).len() == 0);
    }
    None
}


/// First index at which `n` occurs inside `h`, scanning left to right.
pub fn find_str(h: &str, n: &str) -> (r: Option<usize>)
    ensures
        r matches Some(i) ==> i + n@.len() <= h@.len() && h@.subrange(
            i as int,
            i + n@.len() as int,
        ) == n@ && i == spec_find_sub(h@, n@),
        r is None ==> !spec_contains(h@, n@) && spec_find_sub(h@, n@) == -1,
{
    let hl = h.unicode_len();
    let nl = n.unicode_len();
    if nl > hl {
        return None;
    }
    if nl == 0 {
        proof {
            assert(h@.subrange(0, 0 + n@.len() as int) =~= n@);
        }
        return Some(0);
    }
    let mut i: usize = 0;
    while i <= hl - nl
        invariant
            1 <= nl <= hl,
            hl == h@.len(),
            nl == n@.len(),
            i <= hl - nl + 1,
            forall|k: int| 0 <= k < i ==> #[trigger] h@.subrange(k, k + n@.len() as int) != n@,
        decreases hl - i,
    {
        let mut j: usize = 0;
        let mut hit = true;
        while j < nl
            invariant
                hl == h@.len(),
                nl == n@.len(),
                i + nl <= hl,
                j <= nl,
                hit ==> forall|t: int| 0 <= t < j ==> h@[i + t] == n@[t],
                !hit ==> h@.subrange(i as int, i + nl as int) != n@,
            decreases nl - j,
        {
            if h.get_char(i + j) != n.get_char(j) {
                proof {
                    assert(h@.subrange(i as int, i + nl as int)[j as int] == h@[i + j]);
                }
                hit = false;
                j = nl;
            } else {
                j += 1;
            }
        }
        if hit {
            proof {
                assert(h@.subrange(i as int, i + nl as int) =~= n@);
                lemma_find_sub_at(h@, n@, i as int);
            }
            return Some(i);
        }
        i += 1;
    }
    proof {
        lemma_find_sub_none(h@, n@);
    }
    None
}


/// Index of the first occurrence of `n` inside `h`, or `-1` when there is
/// none.
pub open spec fn spec_find_sub(h: Seq<char>, n: Seq<char>) -> int
    decreases h.len(),
{
    if n.len() == 0 {
        0
    } else if h.len() < n.len() {
        -1
    } else if h.subrange(0, n.len() as int) == n {
        0
    } else if spec_find_sub(h.skip(1), n) < 0 {
        -1
    } else {
        spec_find_sub(h.skip(1), n) + 1
    }
}

/// The first occurrence is at `k` when `n` matches there and nowhere before.
pub proof fn lemma_find_sub_at(h: Seq<char>, n: Seq<char>, k: int)
    requires
        n.len() > 0,
        0 <= k,
        k + n.len() <= h.len(),
        h.subrange(k, k + n.len() as int) == n,
        forall|t: int| 0 <= t < k ==> #[trigger] h.subrange(t, t + n.len() as int) != n,
    ensures
        spec_find_sub(h, n) == k,
    decreases h.len(),
{
    if k == 0 {
    } else {
        assert(h.subrange(0, 0 + n.len() as int) != n);
        assert(h.subrange(0, n.len() as int) == h.subrange(0, 0 + n.len() as int));
        assert(h.skip(1).subrange(k - 1, k - 1 + n.len() as int) =~= h.subrange(
            k,
            k + n.len() as int,
        ));
        assert forall|t: int| 0 <= t < k - 1 implies #[trigger] h.skip(1).subrange(
            t,
            t + n.len() as int,
        ) != n by {
            assert(h.skip(1).subrange(t, t + n.len() as int) =~= h.subrange(
                t + 1,
                t + 1 + n.len() as int,
            ));
        }
        lemma_find_sub_at(h.skip(1), n, k - 1);
    }
}

/// There is no occurrence when `n` matches nowhere.
pub proof fn lemma_find_sub_none(h: Seq<char>, n: Seq<char>)
    requires
        n.len() > 0,
        forall|t: int|
            0 <= t && t + n.len() <= h.len() ==> #[trigger] h.subrange(t, t + n.len() as int)
                != n,
    ensures
        spec_find_sub(h, n) == -1,
    decreases h.len(),
{
    if h.len() >= n.len() {
        assert(h.subrange(0, 0 + n.len() as int) != n);
        assert(h.subrange(0, n.len() as int) == h.subrange(0, 0 + n.len() as int));
        assert forall|t: int| 0 <= t && t + n.len() <= h.skip(1).len() implies #[trigger] h.skip(
            1,
        ).subrange(t, t + n.len() as int) != n by {
            assert(h.skip(1).subrange(t, t + n.len() as int) =~= h.subrange(
                t + 1,
                t + 1 + n.len() as int,
            ));
        }
        lemma_find_sub_none(h.skip(1), n);
    }
}


/// `h` ends with the run of characters `n`.
pub open spec fn spec_ends_with(h: Seq<char>, n: Seq<char>) -> bool {
    n.len() <= h.len() && h.subrange(h.len() - n.len(), h.len() as int) == n
}

/// Suffix test, as `str::ends_with` does for string needles.
pub fn ends_with_str(h: &str, n: &str) -> (r: bool)
    ensures
        r == spec_ends_with(h@, n@),
{
    let hl = h.unicode_len();
    let nl = n.unicode_len();
    if nl > hl {
        return false;
    }
    let mut j: usize = 0;
    while j < nl
        invariant
            nl <= hl,
            hl == h@.len(),
            nl == n@.len(),
            j <= nl,
            forall|t: int| 0 <= t < j ==> h@[h@.len() - n@.len() + t] == n@[t],
        decreases nl - j,
    {
        if h.get_char(hl - nl + j) != n.get_char(j) {
            proof {
                assert(h@.subrange(h@.len() - n@.len(), h@.len() as int)[j as int] == h@[h@.len()
                    - n@.len() + j]);
            }
            return false;
        }
        j += 1;
    }
    proof {
        assert(h@.subrange(h@.len() - n@.len(), h@.len() as int) =~= n@);
    }
    true
}

} // verus!
