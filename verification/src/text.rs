//! Byte-level text primitives: character classes, scanning over runs,
//! decimal parsing, ASCII case folding, substring search and trimming.
//!
//! All log lines are handled as byte strings; every helper here has an
//! exact specification over `Seq<u8>`.

use vstd::prelude::*;

verus! {

/// ASCII decimal digit.
pub open spec fn is_digit(b: u8) -> bool {
    48 <= b && b <= 57
}

/// Horizontal whitespace: space or tab.
pub open spec fn is_ws(b: u8) -> bool {
    b == 32 || b == 9
}

/// Bytes removed when a message is trimmed: space, tab, CR, LF.
pub open spec fn is_trim(b: u8) -> bool {
    b == 32 || b == 9 || b == 13 || b == 10
}

/// First index `j >= i` that does not hold a decimal digit.
pub open spec fn scan_digits(s: Seq<u8>, i: int) -> int
    decreases s.len() - i when 0 <= i <= s.len()
{
    if i < s.len() && is_digit(s[i]) {
        scan_digits(s, i + 1)
    } else {
        i
    }
}

/// First index `j >= i` that does not hold horizontal whitespace.
pub open spec fn scan_ws(s: Seq<u8>, i: int) -> int
    decreases s.len() - i when 0 <= i <= s.len()
{
    if i < s.len() && is_ws(s[i]) {
        scan_ws(s, i + 1)
    } else {
        i
    }
}

/// First index `j >= i` that holds horizontal whitespace (or the end).
pub open spec fn scan_non_ws(s: Seq<u8>, i: int) -> int
    decreases s.len() - i when 0 <= i <= s.len()
{
    if i < s.len() && !is_ws(s[i]) {
        scan_non_ws(s, i + 1)
    } else {
        i
    }
}

/// End of a process-tag run: stops at whitespace, `[` or `:`.
pub open spec fn scan_tag(s: Seq<u8>, i: int) -> int
    decreases s.len() - i when 0 <= i <= s.len()
{
    if i < s.len() && !is_ws(s[i]) && s[i] != 91 && s[i] != 58 {
        scan_tag(s, i + 1)
    } else {
        i
    }
}

/// End of a process-name run: stops at whitespace or `:`.
pub open spec fn scan_name(s: Seq<u8>, i: int) -> int
    decreases s.len() - i when 0 <= i <= s.len()
{
    if i < s.len() && !is_ws(s[i]) && s[i] != 58 {
        scan_name(s, i + 1)
    } else {
        i
    }
}

/// Value of the decimal digits `s[i..j)`.
pub open spec fn digits_val(s: Seq<u8>, i: int, j: int) -> nat
    decreases j - i when i <= j
{
    if i >= j {
        0
    } else {
        digits_val(s, i, j - 1) * 10 + (s[j - 1] - 48) as nat
    }
}

/// ASCII lower-casing of one byte.
pub open spec fn lower_byte(b: u8) -> u8 {
    if 65 <= b && b <= 90 {
        (b + 32) as u8
    } else {
        b
    }
}

/// ASCII lower-casing of a byte string.
pub open spec fn lower_bytes(s: Seq<u8>) -> Seq<u8> {
    s.map(|i: int, b: u8| lower_byte(b))
}

/// `needle` occurs contiguously inside `haystack`.
pub open spec fn contains_seq(h: Seq<u8>, n: Seq<u8>) -> bool {
    exists|i: int|
        0 <= i && i + n.len() <= h.len() && #[trigger] h.subrange(i, i + n.len()) == n
}

/// First index `j >= i` that does not hold a trim byte.
pub open spec fn scan_trim(s: Seq<u8>, i: int) -> int
    decreases s.len() - i when 0 <= i <= s.len()
{
    if i < s.len() && is_trim(s[i]) {
        scan_trim(s, i + 1)
    } else {
        i
    }
}

/// Last position `k <= j` such that `s[k-1]` is not a trim byte.
pub open spec fn scan_trim_rev(s: Seq<u8>, j: int) -> int
    decreases j when 0 <= j <= s.len()
{
    if j > 0 && is_trim(s[j - 1]) {
        scan_trim_rev(s, j - 1)
    } else {
        j
    }
}

/// `s` with leading and trailing trim bytes removed.
pub open spec fn trim_of(s: Seq<u8>) -> Seq<u8> {
    let lo = scan_trim(s, 0);
    let hi = scan_trim_rev(s, s.len() as int);
    if lo <= hi {
        s.subrange(lo, hi)
    } else {
        Seq::empty()
    }
}

/// The digits value only grows as the run is extended.
pub proof fn lemma_digits_val_monotone(s: Seq<u8>, i: int, j: int, k: int)
    requires
        i <= j <= k,
    ensures
        digits_val(s, i, j) <= digits_val(s, i, k),
    decreases k - j,
{
    if j < k {
        lemma_digits_val_monotone(s, i, j, k - 1);
        assert(digits_val(s, i, k) == digits_val(s, i, k - 1) * 10 + (s[k - 1] - 48) as nat);
    }
}

/// First index at or after `i` holding a non-digit byte.
pub fn digits_end(s: &[u8], i: usize) -> (r: usize)
    requires
        i <= s@.len(),
    ensures
        i <= r <= s@.len(),
        r == scan_digits(s@, i as int),
        forall|k: int| i <= k < r ==> is_digit(s@[k]),
{
    let mut j = i;
    while j < s.len() && 48 <= s[j] && s[j] <= 57
        invariant
            i <= j <= s@.len(),
            scan_digits(s@, i as int) == scan_digits(s@, j as int),
            forall|k: int| i <= k < j ==> is_digit(s@[k]),
        decreases s@.len() - j,
    {
        j = j + 1;
    }
    j
}

/// First index at or after `i` holding a non-whitespace byte.
pub fn ws_end(s: &[u8], i: usize) -> (r: usize)
    requires
        i <= s@.len(),
    ensures
        i <= r <= s@.len(),
        r == scan_ws(s@, i as int),
{
    let mut j = i;
    while j < s.len() && (s[j] == 32 || s[j] == 9)
        invariant
            i <= j <= s@.len(),
            scan_ws(s@, i as int) == scan_ws(s@, j as int),
        decreases s@.len() - j,
    {
        j = j + 1;
    }
    j
}

/// First index at or after `i` holding a whitespace byte.
pub fn non_ws_end(s: &[u8], i: usize) -> (r: usize)
    requires
        i <= s@.len(),
    ensures
        i <= r <= s@.len(),
        r == scan_non_ws(s@, i as int),
{
    let mut j = i;
    while j < s.len() && !(s[j] == 32 || s[j] == 9)
        invariant
            i <= j <= s@.len(),
            scan_non_ws(s@, i as int) == scan_non_ws(s@, j as int),
        decreases s@.len() - j,
    {
        j = j + 1;
    }
    j
}

/// End of a process-tag run starting at `i`.
pub fn tag_end(s: &[u8], i: usize) -> (r: usize)
    requires
        i <= s@.len(),
    ensures
        i <= r <= s@.len(),
        r == scan_tag(s@, i as int),
{
    let mut j = i;
    while j < s.len() && !(s[j] == 32 || s[j] == 9) && s[j] != 91 && s[j] != 58
        invariant
            i <= j <= s@.len(),
            scan_tag(s@, i as int) == scan_tag(s@, j as int),
        decreases s@.len() - j,
    {
        j = j + 1;
    }
    j
}

/// End of a process-name run starting at `i`.
pub fn name_end(s: &[u8], i: usize) -> (r: usize)
    requires
        i <= s@.len(),
    ensures
        i <= r <= s@.len(),
        r == scan_name(s@, i as int),
{
    let mut j = i;
    while j < s.len() && !(s[j] == 32 || s[j] == 9) && s[j] != 58
        invariant
            i <= j <= s@.len(),
            scan_name(s@, i as int) == scan_name(s@, j as int),
        decreases s@.len() - j,
    {
        j = j + 1;
    }
    j
}

/// Copy the byte range `s[i..j)` out into a fresh vector.
pub fn copy_range(s: &[u8], i: usize, j: usize) -> (r: Vec<u8>)
    requires
        i <= j <= s@.len(),
    ensures
        r@ == s@.subrange(i as int, j as int),
{
    let mut out: Vec<u8> = Vec::new();
    let mut k = i;
    while k < j
        invariant
            i <= k <= j <= s@.len(),
            out@ == s@.subrange(i as int, k as int),
        decreases j - k,
    {
        out.push(s[k]);
        proof {
            assert(s@.subrange(i as int, k + 1) =~= s@.subrange(i as int, k as int).push(s@[k as int]));
        }
        k = k + 1;
    }
    out
}

/// Decimal value of the digit run `s[i..j)`, or `None` when it exceeds `u64`.
pub fn parse_u64_digits(s: &[u8], i: usize, j: usize) -> (r: Option<u64>)
    requires
        i <= j <= s@.len(),
        forall|k: int| i <= k < j ==> is_digit(s@[k]),
    ensures
        digits_val(s@, i as int, j as int) <= u64::MAX <==> r is Some,
        r matches Some(v) ==> v == digits_val(s@, i as int, j as int),
{
    let mut v: u64 = 0;
    let mut k = i;
    while k < j
        invariant
            i <= k <= j <= s@.len(),
            forall|m: int| i <= m < j ==> is_digit(s@[m]),
            v == digits_val(s@, i as int, k as int),
            digits_val(s@, i as int, k as int) <= u64::MAX,
        decreases j - k,
    {
        let d = s[k] - 48;
        if v > (u64::MAX - d as u64) / 10 {
            proof {
                assert(digits_val(s@, i as int, k + 1) == v * 10 + d);
                lemma_digits_val_monotone(s@, i as int, k + 1, j as int);
            }
            return None;
        }
        v = v * 10 + d as u64;
        k = k + 1;
    }
    Some(v)
}

/// ASCII lower-case a byte string.
pub fn ascii_lower(s: &[u8]) -> (r: Vec<u8>)
    ensures
        r@ == lower_bytes(s@),
{
    let mut out: Vec<u8> = Vec::new();
    let mut k: usize = 0;
    while k < s.len()
        invariant
            0 <= k <= s@.len(),
            out@.len() == k,
            forall|m: int| 0 <= m < k ==> out@[m] == lower_byte(s@[m]),
        decreases s@.len() - k,
    {
        let b = s[k];
        if 65 <= b && b <= 90 {
            out.push(b + 32);
        } else {
            out.push(b);
        }
        k = k + 1;
    }
    proof {
        assert(out@ =~= lower_bytes(s@));
    }
    out
}

/// Copy `s` with leading and trailing trim bytes removed.
pub fn trim_bytes(s: &[u8]) -> (r: Vec<u8>)
    ensures
        r@ == trim_of(s@),
{
    let mut lo: usize = 0;
    while lo < s.len() && (s[lo] == 32 || s[lo] == 9 || s[lo] == 13 || s[lo] == 10)
        invariant
            0 <= lo <= s@.len(),
            scan_trim(s@, 0) == scan_trim(s@, lo as int),
        decreases s@.len() - lo,
    {
        lo = lo + 1;
    }
    let mut hi: usize = s.len();
    while hi > 0 && (s[hi - 1] == 32 || s[hi - 1] == 9 || s[hi - 1] == 13 || s[hi - 1] == 10)
        invariant
            0 <= hi <= s@.len(),
            scan_trim_rev(s@, s@.len() as int) == scan_trim_rev(s@, hi as int),
        decreases hi,
    {
        hi = hi - 1;
    }
    if lo <= hi {
        copy_range(s, lo, hi)
    } else {
        Vec::new()
    }
}

/// Byte-string equality.
pub fn bytes_eq(a: &[u8], b: &[u8]) -> (r: bool)
    ensures
        r == (a@ == b@),
{
    if a.len() != b.len() {
        proof {
            assert(a@ != b@);
        }
        return false;
    }
    let mut k: usize = 0;
    while k < a.len()
        invariant
            0 <= k <= a@.len(),
            a@.len() == b@.len(),
            forall|m: int| 0 <= m < k ==> a@[m] == b@[m],
        decreases a@.len() - k,
    {
        if a[k] != b[k] {
            proof {
                assert(a@[k as int] != b@[k as int]);
            }
            return false;
        }
        k = k + 1;
    }
    proof {
        assert(a@ =~= b@);
    }
    true
}

/// Substring search: does `needle` occur contiguously in `haystack`?
pub fn contains_bytes(haystack: &[u8], needle: &[u8]) -> (r: bool)
    ensures
        r == contains_seq(haystack@, needle@),
{
    if needle.len() > haystack.len() {
        proof {
            assert(!contains_seq(haystack@, needle@));
        }
        return false;
    }
    if needle.len() == 0 {
        proof {
            assert(haystack@.subrange(0, 0 + needle@.len() as int) =~= needle@);
        }
        return true;
    }
    let mut i: usize = 0;
    while i <= haystack.len() - needle.len()
        invariant
            1 <= needle@.len() <= haystack@.len(),
            haystack@.len() <= usize::MAX,
            0 <= i <= haystack@.len() - needle@.len() + 1,
            forall|p: int|
                0 <= p < i ==> #[trigger] haystack@.subrange(p, p + needle@.len()) != needle@,
        decreases haystack@.len() - needle@.len() + 1 - i,
    {
        let mut k: usize = 0;
        let mut hit = true;
        while k < needle.len() && hit
            invariant
                0 <= k <= needle@.len(),
                i + needle@.len() <= haystack@.len(),
                haystack@.len() <= usize::MAX,
                hit ==> forall|m: int| 0 <= m < k ==> haystack@[i + m] == needle@[m],
                !hit ==> haystack@.subrange(i as int, i + needle@.len()) != needle@,
            decreases needle@.len() - k + (if hit { 1int } else { 0int }),
        {
            if haystack[i + k] != needle[k] {
                proof {
                    assert(haystack@.subrange(i as int, i + needle@.len())[k as int]
                        != needle@[k as int]);
                }
                hit = false;
            } else {
                k = k + 1;
            }
        }
        if hit {
            proof {
                assert(haystack@.subrange(i as int, i + needle@.len()) =~= needle@);
            }
            return true;
        }
        i = i + 1;
    }
    proof {
        assert forall|p: int| 0 <= p && p + needle@.len() <= haystack@.len() implies
            #[trigger] haystack@.subrange(p, p + needle@.len()) != needle@
        by {
            assert(p < i);
        }
    }
    false
}

} // verus!
