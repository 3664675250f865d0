//! Character-level text handling shared by the rest of the library:
//! classification, trimming, decimal numbers and string building.
use vstd::prelude::*;

verus! {

// ---------------------------------------------------------------------
// Character classes
// ---------------------------------------------------------------------

pub open spec fn is_ascii_digit(c: char) -> bool {
    '0' <= c && c <= '9'
}

pub open spec fn is_ascii_alnum(c: char) -> bool {
    ||| '0' <= c && c <= '9'
    ||| 'a' <= c && c <= 'z'
    ||| 'A' <= c && c <= 'Z'
}

/// The Unicode `White_Space` property, which `char::is_whitespace` tests.
pub open spec fn is_ws(c: char) -> bool {
    ||| '\t' <= c && c <= '\r'
    ||| c == ' '
    ||| c == '\u{85}'
    ||| c == '\u{A0}'
    ||| c == '\u{1680}'
    ||| '\u{2000}' <= c && c <= '\u{200A}'
    ||| c == '\u{2028}'
    ||| c == '\u{2029}'
    ||| c == '\u{202F}'
    ||| c == '\u{205F}'
    ||| c == '\u{3000}'
}

pub fn is_whitespace(c: char) -> (r: bool)
    ensures
        r == is_ws(c),
{
    ('\t' <= c && c <= '\r') || c == ' ' || c == '\u{85}' || c == '\u{A0}' || c == '\u{1680}'
        || ('\u{2000}' <= c && c <= '\u{200A}') || c == '\u{2028}' || c == '\u{2029}' || c
        == '\u{202F}' || c == '\u{205F}' || c == '\u{3000}'
}

pub fn is_alnum(c: char) -> (r: bool)
    ensures
        r == is_ascii_alnum(c),
{
    ('0' <= c && c <= '9') || ('a' <= c && c <= 'z') || ('A' <= c && c <= 'Z')
}

pub open spec fn ascii_lower(c: char) -> char {
    if 'A' <= c && c <= 'Z' {
        ((c as u32) + 32) as char
    } else {
        c
    }
}

pub open spec fn ascii_lowercase(s: Seq<char>) -> Seq<char> {
    s.map_values(|c: char| ascii_lower(c))
}

// ---------------------------------------------------------------------
// Building and comparing strings
// ---------------------------------------------------------------------

/// Appends one character to a string, by `String::push`.
#[verifier::external_body]
pub(crate) fn push_char(s: &mut String, c: char)
    ensures
        final(s)@ == old(s)@.push(c),
{
    s.push(c);
}

/// The characters of a string slice, in order.
pub fn chars_of(s: &str) -> (v: Vec<char>)
    ensures
        v@ == s@,
{
    let mut v: Vec<char> = Vec::new();
    for c in it: s.chars()
        invariant
            v@ == it.seq().take(it.index()),
            it.seq() == s@,
    {
        v.push(c);
    }
    v
}

/// A string holding the given characters.
pub fn string_of(v: &[char]) -> (s: String)
    ensures
        s@ == v@,
{
    let mut s = String::new();
    let mut i: usize = 0;
    while i < v.len()
        invariant
            i <= v@.len(),
            s@ == v@.take(i as int),
        decreases v@.len() - i,
    {
        push_char(&mut s, v[i]);
        proof {
            assert(v@.take(i + 1) =~= v@.take(i as int).push(v@[i as int]));
        }
        i += 1;
    }
    proof {
        assert(v@.take(v@.len() as int) =~= v@);
    }
    s
}

/// A string holding a copy of `t`.
pub fn string_from(t: &str) -> (s: String)
    ensures
        s@ == t@,
{
    String::from_str(t)
}

/// Appends `t` to `s`.
pub fn push_str(s: &mut String, t: &str)
    ensures
        final(s)@ == old(s)@ + t@,
{
    s.append(t);
}

pub fn chars_eq(a: &[char], b: &[char]) -> (r: bool)
    ensures
        r == (a@ == b@),
{
    if a.len() != b.len() {
        return false;
    }
    let mut i: usize = 0;
    while i < a.len()
        invariant
            a@.len() == b@.len(),
            i <= a@.len(),
            forall|j: int| 0 <= j < i ==> a@[j] == b@[j],
        decreases a@.len() - i,
    {
        if a[i] != b[i] {
            return false;
        }
        i += 1;
    }
    proof {
        assert(a@ =~= b@);
    }
    true
}

/// Character-wise equality of two string slices.
pub fn str_eq(a: &str, b: &str) -> (r: bool)
    ensures
        r == (a@ == b@),
{
    let x = chars_of(a);
    let y = chars_of(b);
    chars_eq(x.as_slice(), y.as_slice())
}

pub open spec fn starts_with(s: Seq<char>, p: Seq<char>) -> bool {
    p.len() <= s.len() && s.subrange(0, p.len() as int) == p
}

pub open spec fn ends_with(s: Seq<char>, p: Seq<char>) -> bool {
    p.len() <= s.len() && s.subrange(s.len() - p.len(), s.len() as int) == p
}

pub fn chars_start_with(s: &[char], p: &[char]) -> (r: bool)
    ensures
        r == starts_with(s@, p@),
{
    if p.len() > s.len() {
        return false;
    }
    let mut i: usize = 0;
    while i < p.len()
        invariant
            p@.len() <= s@.len(),
            i <= p@.len(),
            forall|j: int| 0 <= j < i ==> s@[j] == p@[j],
        decreases p@.len() - i,
    {
        if s[i] != p[i] {
            assert(s@.subrange(0, p@.len() as int)[i as int] != p@[i as int]);
            return false;
        }
        i += 1;
    }
    proof {
        assert(s@.subrange(0, p@.len() as int) =~= p@);
    }
    true
}

pub fn chars_end_with(s: &[char], p: &[char]) -> (r: bool)
    ensures
        r == ends_with(s@, p@),
{
    if p.len() > s.len() {
        return false;
    }
    let off = s.len() - p.len();
    let mut i: usize = 0;
    while i < p.len()
        invariant
            p@.len() <= s@.len(),
            off + p@.len() == s@.len(),
            s@.len() == s.len(),
            i <= p@.len(),
            forall|j: int| 0 <= j < i ==> s@[off + j] == p@[j],
        decreases p@.len() - i,
    {
        if s[off + i] != p[i] {
            assert(s@.subrange(off as int, s@.len() as int)[i as int] != p@[i as int]);
            return false;
        }
        i += 1;
    }
    proof {
        assert(s@.subrange(off as int, s@.len() as int) =~= p@);
    }
    true
}

/// `str::starts_with` with a string prefix.
pub fn str_starts_with(s: &str, p: &str) -> (r: bool)
    ensures
        r == starts_with(s@, p@),
{
    let a = chars_of(s);
    let b = chars_of(p);
    chars_start_with(a.as_slice(), b.as_slice())
}

/// `str::ends_with` with a string suffix.
pub fn str_ends_with(s: &str, p: &str) -> (r: bool)
    ensures
        r == ends_with(s@, p@),
{
    let a = chars_of(s);
    let b = chars_of(p);
    chars_end_with(a.as_slice(), b.as_slice())
}

/// Whether `c` occurs in `s`.
pub fn chars_contain(s: &[char], c: char) -> (r: bool)
    ensures
        r == s@.contains(c),
{
    let mut i: usize = 0;
    while i < s.len()
        invariant
            i <= s@.len(),
            forall|j: int| 0 <= j < i ==> s@[j] != c,
        decreases s@.len() - i,
    {
        if s[i] == c {
            return true;
        }
        i += 1;
    }
    false
}

/// `s` contains `n` as a contiguous part.
pub open spec fn contains_seq(s: Seq<char>, n: Seq<char>) -> bool {
    exists|i: int| 0 <= i && i + n.len() <= s.len() && #[trigger] s.subrange(i, i + n.len()) == n
}

pub fn chars_contain_seq(s: &[char], n: &[char]) -> (r: bool)
    ensures
        r == contains_seq(s@, n@),
{
    if n.len() > s.len() {
        return false;
    }
    let last = s.len() - n.len();
    let mut i: usize = 0;
    while i <= last
        invariant
            n@.len() <= s@.len(),
            last + n@.len() == s@.len(),
            s@.len() == s.len(),
            i <= last + 1,
            forall|k: int| 0 <= k < i ==> #[trigger] s@.subrange(k, k + n@.len()) != n@,
        decreases last + 1 - i,
    {
        let mut j: usize = 0;
        let mut same = true;
        while j < n.len()
            invariant
                n@.len() <= s@.len(),
                i <= last,
                last + n@.len() == s@.len(),
                s@.len() == s.len(),
                j <= n@.len(),
                same == (forall|t: int| 0 <= t < j ==> s@[i + t] == n@[t]),
            decreases n@.len() - j,
        {
            if s[i + j] != n[j] {
                same = false;
            }
            j += 1;
        }
        if same {
            assert(s@.subrange(i as int, i + n@.len()) =~= n@);
            return true;
        }
        assert(s@.subrange(i as int, i + n@.len())[0] == s@[i as int + 0] || true);
        proof {
            if s@.subrange(i as int, i + n@.len()) == n@ {
                let t = choose|t: int| 0 <= t < n@.len() && s@[i + t] != n@[t];
                assert(s@.subrange(i as int, i + n@.len())[t] == s@[i + t]);
            }
        }
        i += 1;
    }
    false
}

// ---------------------------------------------------------------------
// Trimming
// ---------------------------------------------------------------------

pub open spec fn trim_start(s: Seq<char>) -> Seq<char>
    decreases s.len(),
{
    if s.len() > 0 && is_ws(s[0]) {
        trim_start(s.drop_first())
    } else {
        s
    }
}

pub open spec fn trim_end(s: Seq<char>) -> Seq<char>
    decreases s.len(),
{
    if s.len() > 0 && is_ws(s.last()) {
        trim_end(s.drop_last())
    } else {
        s
    }
}

/// What `str::trim` leaves of `s`.
pub open spec fn trim(s: Seq<char>) -> Seq<char> {
    trim_end(trim_start(s))
}

/// The characters of `str::trim` applied to `s`.
pub fn trim_chars(s: &[char]) -> (r: Vec<char>)
    ensures
        r@ == trim(s@),
{
    let n = s.len();
    let mut a: usize = 0;
    assert(s@.subrange(0, n as int) =~= s@);
    while a < n && is_whitespace(s[a])
        invariant
            n == s@.len(),
            a <= n,
            trim_start(s@) == trim_start(s@.subrange(a as int, n as int)),
        decreases n - a,
    {
        proof {
            assert(s@.subrange(a as int, n as int).drop_first() =~= s@.subrange(a + 1, n as int));
        }
        a += 1;
    }
    proof {
        let t = s@.subrange(a as int, n as int);
        if t.len() > 0 {
            assert(t[0] == s@[a as int]);
        }
        assert(trim_start(t) == t);
    }
    let mut b: usize = n;
    while b > a && is_whitespace(s[b - 1])
        invariant
            n == s@.len(),
            a <= b <= n,
            trim(s@) == trim_end(s@.subrange(a as int, b as int)),
        decreases b - a,
    {
        proof {
            assert(s@.subrange(a as int, b as int).drop_last() =~= s@.subrange(a as int, b - 1));
        }
        b -= 1;
    }
    let mut r: Vec<char> = Vec::new();
    let mut i = a;
    while i < b
        invariant
            n == s@.len(),
            a <= i <= b <= n,
            r@ == s@.subrange(a as int, i as int),
        decreases b - i,
    {
        r.push(s[i]);
        proof {
            assert(s@.subrange(a as int, i + 1) =~= s@.subrange(a as int, i as int).push(s@[i as int]));
        }
        i += 1;
    }
    proof {
        let t = s@.subrange(a as int, b as int);
        if t.len() > 0 {
            assert(t.last() == s@[b - 1]);
        }
        assert(trim_end(t) == t);
    }
    r
}

/// `str::trim` applied to a string slice.
pub fn trim_str(s: &str) -> (r: String)
    ensures
        r@ == trim(s@),
{
    let v = chars_of(s);
    let t = trim_chars(v.as_slice());
    string_of(t.as_slice())
}

/// `to_ascii_lowercase` on characters.
pub fn ascii_lowercase_chars(s: &[char]) -> (r: Vec<char>)
    ensures
        r@ == ascii_lowercase(s@),
{
    let mut r: Vec<char> = Vec::new();
    let mut i: usize = 0;
    while i < s.len()
        invariant
            i <= s@.len(),
            r@ =~= ascii_lowercase(s@.take(i as int)),
        decreases s@.len() - i,
    {
        let c = s[i];
        let l = if 'A' <= c && c <= 'Z' {
            ((c as u8) + 32) as char
        } else {
            c
        };
        proof {
            if 'A' <= c && c <= 'Z' {
                assert((c as u8) as u32 == c as u32);
                assert(l == ((c as u32) + 32) as char);
            }
            assert(s@.take(i + 1) =~= s@.take(i as int).push(c));
        }
        r.push(l);
        i += 1;
    }
    proof {
        assert(s@.take(s@.len() as int) =~= s@);
    }
    r
}

// ---------------------------------------------------------------------
// Decimal numbers
// ---------------------------------------------------------------------

pub open spec fn digit_char(d: nat) -> char {
    (('0' as u32) + d) as char
}

pub open spec fn digit_value(c: char) -> nat {
    ((c as u32) - ('0' as u32)) as nat
}

/// The decimal notation of `n`, as `Display` writes it.
pub open spec fn decimal(n: nat) -> Seq<char>
    decreases n,
{
    if n < 10 {
        seq![digit_char(n)]
    } else {
        decimal(n / 10).push(digit_char(n % 10))
    }
}

/// The decimal notation of `n`.
pub fn fmt_u64(n: u64) -> (s: String)
    ensures
        s@ == decimal(n as nat),
    decreases n,
{
    if n < 10 {
        let mut s = String::new();
        push_char(&mut s, (('0' as u8) + (n as u8)) as char);
        proof {
            assert(((('0' as u8) + (n as u8)) as char) == digit_char(n as nat));
        }
        s
    } else {
        let mut s = fmt_u64(n / 10);
        let d = n % 10;
        push_char(&mut s, (('0' as u8) + (d as u8)) as char);
        proof {
            assert(((('0' as u8) + (d as u8)) as char) == digit_char((n % 10) as nat));
        }
        s
    }
}

pub open spec fn all_digits(s: Seq<char>) -> bool {
    forall|i: int| 0 <= i < s.len() ==> is_ascii_digit(#[trigger] s[i])
}

/// The number that a run of decimal digits denotes.
pub open spec fn digits_value(s: Seq<char>) -> nat
    decreases s.len(),
{
    if s.len() == 0 {
        0
    } else {
        digits_value(s.drop_last()) * 10 + digit_value(s.last())
    }
}

/// What `str::parse` gives for an unsigned integer type whose largest value is
/// `max`: an optional `+`, then at least one ASCII digit, with the value at most
/// `max`.
pub open spec fn parse_unsigned(s: Seq<char>, max: nat) -> Option<nat> {
    let d = if s.len() > 0 && s[0] == '+' {
        s.drop_first()
    } else {
        s
    };
    if d.len() > 0 && all_digits(d) && digits_value(d) <= max {
        Some(digits_value(d))
    } else {
        None
    }
}

proof fn lemma_digits_step(d: Seq<char>, k: int)
    requires
        0 <= k < d.len(),
        all_digits(d.take(k)),
        is_ascii_digit(d[k]),
    ensures
        all_digits(d.take(k + 1)),
        digits_value(d.take(k + 1)) == digits_value(d.take(k)) * 10 + digit_value(d[k]),
{
    assert(d.take(k + 1).drop_last() =~= d.take(k));
    assert(d.take(k + 1).last() == d[k]);
    assert forall|j: int| 0 <= j < k + 1 implies is_ascii_digit(#[trigger] d.take(k + 1)[j]) by {
        if j < k {
            assert(d.take(k + 1)[j] == d.take(k)[j]);
        }
    }
}

proof fn lemma_digits_value_grows(s: Seq<char>, k: int)
    requires
        0 <= k <= s.len(),
        all_digits(s),
    ensures
        digits_value(s.take(k)) <= digits_value(s),
    decreases s.len() - k,
{
    if k < s.len() {
        lemma_digits_value_grows(s, k + 1);
        assert(s.take(k + 1).drop_last() =~= s.take(k));
    } else {
        assert(s.take(k) =~= s);
    }
}

/// Parses an unsigned decimal number no larger than `max`, as `str::parse`
/// does for the unsigned type whose largest value is `max`.
#[verifier::spinoff_prover]
pub fn parse_unsigned_chars(s: &[char], max: u64) -> (r: Option<u64>)
    ensures
        match parse_unsigned(s@, max as nat) {
            Some(v) => r == Some(v as u64),
            None => r is None,
        },
{
    let start: usize = if s.len() > 0 && s[0] == '+' {
        1
    } else {
        0
    };
    let ghost d = if s@.len() > 0 && s@[0] == '+' {
        s@.drop_first()
    } else {
        s@
    };
    proof {
        assert(d =~= s@.subrange(start as int, s@.len() as int));
    }
    if start >= s.len() {
        return None;
    }
    let mut value: u64 = 0;
    let mut i: usize = start;
    while i < s.len()
        invariant
            start <= i <= s@.len(),
            d == s@.subrange(start as int, s@.len() as int),
            d == (if s@.len() > 0 && s@[0] == '+' {
                s@.drop_first()
            } else {
                s@
            }),
            all_digits(d.take(i - start)),
            value as nat == digits_value(d.take(i - start)),
            value <= max,
        decreases s@.len() - i,
    {
        let c = s[i];
        if !('0' <= c && c <= '9') {
            proof {
                assert(d[i - start] == c);
                assert(!is_ascii_digit(d[i - start]));
                assert(!all_digits(d));
            }
            return None;
        }
        let dv = ((c as u32) - ('0' as u32)) as u64;
        proof {
            lemma_digits_step(d, i - start);
        }
        let next: u128 = (value as u128) * 10 + (dv as u128);
        if next > max as u128 {
            proof {
                if all_digits(d) {
                    lemma_digits_value_grows(d, i - start + 1);
                }
            }
            return None;
        }
        value = next as u64;
        i += 1;
    }
    proof {
        assert(d.take(i - start) =~= d);
    }
    Some(value)
}

/// Parses a decimal `usize`, as `str::parse::<usize>` does.
pub fn parse_usize(s: &[char]) -> (r: Option<usize>)
    ensures
        match parse_unsigned(s@, usize::MAX as nat) {
            Some(v) => r == Some(v as usize),
            None => r is None,
        },
{
    match parse_unsigned_chars(s, usize::MAX as u64) {
        Some(v) => Some(v as usize),
        None => None,
    }
}

/// Parses a decimal `u32`, as `str::parse::<u32>` does.
pub fn parse_u32(s: &[char]) -> (r: Option<u32>)
    ensures
        match parse_unsigned(s@, u32::MAX as nat) {
            Some(v) => r == Some(v as u32),
            None => r is None,
        },
{
    match parse_unsigned_chars(s, u32::MAX as u64) {
        Some(v) => Some(v as u32),
        None => None,
    }
}

// ---------------------------------------------------------------------
// Case conversion and debug quoting from std
// ---------------------------------------------------------------------

/// What `str::to_lowercase` gives for the given characters (full Unicode
/// case mapping).
pub uninterp spec fn unicode_lowercase(s: Seq<char>) -> Seq<char>;

/// `str::to_lowercase`: the result is the Unicode lower-case mapping of `s`,
/// a function of `s` alone.
#[verifier::external_body]
pub(crate) fn to_lowercase(s: &str) -> (r: String)
    ensures
        r@ == unicode_lowercase(s@),
{
    s.to_lowercase()
}

/// What `format!("{:?}", s)` gives for a string slice: the text in double
/// quotes, with `char::escape_debug` applied to its characters.
pub uninterp spec fn debug_quoted(s: Seq<char>) -> Seq<char>;

/// `format!("{:?}", s)` for a string slice; the result is a function of `s`
/// alone.
#[verifier::external_body]
pub(crate) fn debug_str(s: &str) -> (r: String)
    ensures
        r@ == debug_quoted(s@),
{
    format!("{:?}", s)
}

} // verus!

verus! {

// ---------------------------------------------------------------------
// Lists of strings
// ---------------------------------------------------------------------

/// Appends a copy of `s` to a list of strings.
pub fn push_string(v: &mut Vec<String>, s: &str)
    ensures
        final(v).deep_view() == old(v).deep_view().push(s@),
{
    let ghost before = v.deep_view();
    v.push(String::from_str(s));
    proof {
        assert(v.deep_view() =~= before.push(s@));
    }
}

/// Appends copies of all strings of `src`, in order.
pub fn extend_strings(v: &mut Vec<String>, src: &Vec<String>)
    ensures
        final(v).deep_view() == old(v).deep_view() + src.deep_view(),
{
    let ghost before = v.deep_view();
    let mut i: usize = 0;
    while i < src.len()
        invariant
            i <= src@.len(),
            v.deep_view() == before + src.deep_view().take(i as int),
        decreases src@.len() - i,
    {
        let ghost mid = v.deep_view();
        v.push(src[i].clone());
        proof {
            assert(v.deep_view() =~= mid.push(src@[i as int]@));
            assert(src.deep_view().take(i + 1) =~= src.deep_view().take(i as int).push(
                src@[i as int]@,
            ));
        }
        i += 1;
    }
    proof {
        assert(src.deep_view().take(src@.len() as int) =~= src.deep_view());
    }
}

} // verus!

verus! {

/// The number of bytes that UTF-8 takes for `c`.
pub open spec fn utf8_width(c: char) -> nat {
    if (c as u32) < 0x80 {
        1
    } else if (c as u32) < 0x800 {
        2
    } else if (c as u32) < 0x10000 {
        3
    } else {
        4
    }
}

/// The number of bytes of the UTF-8 encoding of `s`, which `str::len` gives.
pub open spec fn utf8_len(s: Seq<char>) -> nat
    decreases s.len(),
{
    if s.len() == 0 {
        0
    } else {
        utf8_len(s.drop_last()) + utf8_width(s.last())
    }
}

/// Whether the UTF-8 encoding of `s` is longer than `limit` bytes.
pub fn utf8_longer_than(s: &[char], limit: u64) -> (r: bool)
    requires
        limit < u64::MAX - 4,
    ensures
        r == (utf8_len(s@) > limit),
{
    let mut total: u64 = 0;
    let mut i: usize = 0;
    while i < s.len()
        invariant
            i <= s@.len(),
            total == utf8_len(s@.take(i as int)),
            total <= limit,
            limit < u64::MAX - 4,
        decreases s@.len() - i,
    {
        let c = s[i];
        let w: u64 = if (c as u32) < 0x80 {
            1
        } else if (c as u32) < 0x800 {
            2
        } else if (c as u32) < 0x10000 {
            3
        } else {
            4
        };
        proof {
            assert(s@.take(i + 1).drop_last() =~= s@.take(i as int));
        }
        total = total + w;
        i += 1;
        if total > limit {
            proof {
                lemma_utf8_len_prefix(s@, i as int);
            }
            return true;
        }
    }
    proof {
        assert(s@.take(i as int) =~= s@);
    }
    false
}

proof fn lemma_utf8_len_prefix(s: Seq<char>, k: int)
    requires
        0 <= k <= s.len(),
    ensures
        utf8_len(s.take(k)) <= utf8_len(s),
    decreases s.len() - k,
{
    if k < s.len() {
        lemma_utf8_len_prefix(s, k + 1);
        assert(s.take(k + 1).drop_last() =~= s.take(k));
    } else {
        assert(s.take(k) =~= s);
    }
}

} // verus!

verus! {

/// What `str::parse::<i64>` gives: an optional sign, then at least one ASCII
/// digit, with the value in range.
pub open spec fn parse_i64_spec(s: Seq<char>) -> Option<int> {
    if s.len() > 0 && s[0] == '-' {
        let d = s.drop_first();
        if d.len() > 0 && all_digits(d) && digits_value(d) <= 9223372036854775808 {
            Some(-(digits_value(d) as int))
        } else {
            None
        }
    } else {
        match parse_unsigned(s, 9223372036854775807) {
            Some(v) => Some(v as int),
            None => None,
        }
    }
}

/// Parses a decimal `i64`, as `str::parse::<i64>` does.
pub fn parse_i64(s: &[char]) -> (r: Option<i64>)
    ensures
        match parse_i64_spec(s@) {
            Some(v) => r == Some(v as i64),
            None => r is None,
        },
{
    if s.len() > 0 && s[0] == '-' {
        let mut rest: Vec<char> = Vec::new();
        let mut i: usize = 1;
        while i < s.len()
            invariant
                1 <= i <= s@.len(),
                rest@ == s@.subrange(1, i as int),
            decreases s@.len() - i,
        {
            rest.push(s[i]);
            proof {
                assert(s@.subrange(1, i + 1) =~= s@.subrange(1, i as int).push(s@[i as int]));
            }
            i += 1;
        }
        proof {
            assert(rest@ =~= s@.drop_first());
        }
        if rest.len() > 0 && rest[0] == '+' {
            proof {
                assert(!is_ascii_digit(rest@[0]));
            }
            return None;
        }
        match parse_unsigned_chars(rest.as_slice(), 9223372036854775808u64) {
            Some(v) => {
                if v == 9223372036854775808u64 {
                    Some(i64::MIN)
                } else {
                    Some(-(v as i64))
                }
            },
            None => None,
        }
    } else {
        match parse_unsigned_chars(s, 9223372036854775807u64) {
            Some(v) => Some(v as i64),
            None => None,
        }
    }
}

} // verus!

verus! {

// ---------------------------------------------------------------------
// Lines
// ---------------------------------------------------------------------

/// The lines of `s` ended so far, and the text after the last `\n`: a line
/// ends at each `\n`, with one `\r` before it dropped.
pub open spec fn lines_state(s: Seq<char>) -> (Seq<Seq<char>>, Seq<char>)
    decreases s.len(),
{
    if s.len() == 0 {
        (seq![], seq![])
    } else {
        let (done, cur) = lines_state(s.drop_last());
        if s.last() == '\n' {
            (done.push(strip_cr(cur)), seq![])
        } else {
            (done, cur.push(s.last()))
        }
    }
}

pub open spec fn strip_cr(l: Seq<char>) -> Seq<char> {
    if l.len() > 0 && l.last() == '\r' {
        l.drop_last()
    } else {
        l
    }
}

/// The lines of `s` (see [`lines_of`]).
pub open spec fn lines(s: Seq<char>) -> Seq<Seq<char>> {
    let (done, cur) = lines_state(s);
    if cur.len() > 0 {
        done.push(strip_cr(cur))
    } else {
        done
    }
}

/// The lines of `s`: split at each `\n`, with one `\r` before it dropped,
/// and with no last empty line. Unlike `str::lines`, a `\r` that ends an
/// unterminated last line is dropped too.
pub fn lines_of(s: &str) -> (r: Vec<Vec<char>>)
    ensures
        r.deep_view() == lines(s@),
{
    let chars = chars_of(s);
    let mut out: Vec<Vec<char>> = Vec::new();
    let mut cur: Vec<char> = Vec::new();
    let ghost t = s@;
    let mut i: usize = 0;
    while i < chars.len()
        invariant
            chars@ == t,
            i <= chars@.len(),
            lines_state(t.take(i as int)) == (out.deep_view(), cur@),
        decreases chars@.len() - i,
    {
        let c = chars[i];
        proof {
            assert(t.take(i + 1).drop_last() =~= t.take(i as int));
            assert(t.take(i + 1).last() == c);
        }
        if c == '\n' {
            let line = strip_cr_chars(&cur);
            let ghost before = out.deep_view();
            assert(line.deep_view() =~= line@);
            out.push(line);
            proof {
                assert(out.deep_view() =~= before.push(strip_cr(cur@)));
            }
            cur = Vec::new();
        } else {
            cur.push(c);
        }
        i += 1;
    }
    proof {
        assert(t.take(i as int) =~= t);
    }
    if cur.len() > 0 {
        let line = strip_cr_chars(&cur);
        let ghost before = out.deep_view();
        assert(line.deep_view() =~= line@);
        out.push(line);
        proof {
            assert(out.deep_view() =~= before.push(strip_cr(cur@)));
        }
    }
    out
}

/// `l` without one `\r` at its end.
pub fn strip_cr_chars(cur: &Vec<char>) -> (r: Vec<char>)
    ensures
        r@ == strip_cr(cur@),
{
    let mut r: Vec<char> = Vec::new();
    let n = if cur.len() > 0 && cur[cur.len() - 1] == '\r' {
        cur.len() - 1
    } else {
        cur.len()
    };
    let mut i: usize = 0;
    while i < n
        invariant
            n <= cur@.len(),
            i <= n,
            r@ == cur@.take(i as int),
        decreases n - i,
    {
        r.push(cur[i]);
        proof {
            assert(cur@.take(i + 1) =~= cur@.take(i as int).push(cur@[i as int]));
        }
        i += 1;
    }
    proof {
        assert(cur@.take(n as int) =~= strip_cr(cur@));
    }
    r
}

} // verus!

verus! {

/// The UTF-8 length of `s` in bytes, or `usize::MAX` if that is larger.
pub fn utf8_count(s: &[char]) -> (r: usize)
    ensures
        r == (if utf8_len(s@) <= usize::MAX {
            utf8_len(s@)
        } else {
            usize::MAX as nat
        }),
{
    let mut total: u128 = 0;
    let mut i: usize = 0;
    while i < s.len()
        invariant
            i <= s@.len(),
            total == utf8_len(s@.take(i as int)),
            total <= 4 * i,
        decreases s@.len() - i,
    {
        let c = s[i];
        let w: u128 = if (c as u32) < 0x80 {
            1
        } else if (c as u32) < 0x800 {
            2
        } else if (c as u32) < 0x10000 {
            3
        } else {
            4
        };
        proof {
            assert(s@.take(i + 1).drop_last() =~= s@.take(i as int));
        }
        total = total + w;
        i += 1;
    }
    proof {
        assert(s@.take(i as int) =~= s@);
    }
    if total <= usize::MAX as u128 {
        total as usize
    } else {
        usize::MAX
    }
}


// ---------------------------------------------------------------------
// Words
// ---------------------------------------------------------------------

/// The words of `s`, as `split_whitespace` gives them: the completed words
/// and the word being read.
pub open spec fn words_state(s: Seq<char>) -> (Seq<Seq<char>>, Seq<char>)
    decreases s.len(),
{
    if s.len() == 0 {
        (seq![], seq![])
    } else {
        let (done, cur) = words_state(s.drop_last());
        if is_ws(s.last()) {
            if cur.len() > 0 {
                (done.push(cur), seq![])
            } else {
                (done, seq![])
            }
        } else {
            (done, cur.push(s.last()))
        }
    }
}

pub open spec fn words(s: Seq<char>) -> Seq<Seq<char>> {
    let (done, cur) = words_state(s);
    if cur.len() > 0 {
        done.push(cur)
    } else {
        done
    }
}

/// The whitespace-separated words of `s`.
pub fn words_of(s: &str) -> (r: Vec<String>)
    ensures
        r.deep_view() == words(s@),
{
    let chars = chars_of(s);
    let mut out: Vec<String> = Vec::new();
    let mut cur: Vec<char> = Vec::new();
    let ghost t = s@;
    let mut i: usize = 0;
    while i < chars.len()
        invariant
            chars@ == t,
            i <= chars@.len(),
            words_state(t.take(i as int)) == (out.deep_view(), cur@),
        decreases chars@.len() - i,
    {
        let c = chars[i];
        proof {
            assert(t.take(i + 1).drop_last() =~= t.take(i as int));
            assert(t.take(i + 1).last() == c);
        }
        if is_whitespace(c) {
            if cur.len() > 0 {
                let ghost before = out.deep_view();
                out.push(string_of(cur.as_slice()));
                proof {
                    assert(out.deep_view() =~= before.push(cur@));
                }
                cur = Vec::new();
            }
        } else {
            cur.push(c);
        }
        i += 1;
    }
    proof {
        assert(t.take(i as int) =~= t);
    }
    if cur.len() > 0 {
        let ghost before = out.deep_view();
        out.push(string_of(cur.as_slice()));
        proof {
            assert(out.deep_view() =~= before.push(cur@));
        }
    }
    out
}

} // verus!
