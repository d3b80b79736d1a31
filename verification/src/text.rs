//! Character-level helpers shared by the lexer, the parsers and the matchers.
//!
//! Case mapping follows Unicode tables that `std` owns; it is reached
//! through small trusted wrappers whose results are named, and stated for
//! ASCII text.  Everything else here (trimming of Unicode `White_Space`,
//! substring search, decimal and hexadecimal rendering and reading,
//! unsigned integer parsing) is verified.
use vstd::prelude::*;

verus! {

/// What `str::to_lowercase` returns for a string with these characters.
pub uninterp spec fn str_lowercase(s: Seq<char>) -> Seq<char>;

/// What `str::to_uppercase` returns for a string with these characters.
pub uninterp spec fn str_uppercase(s: Seq<char>) -> Seq<char>;

/// Every character is ASCII.
pub open spec fn is_ascii_text(s: Seq<char>) -> bool {
    forall|i: int| 0 <= i < s.len() ==> (#[trigger] s[i] as u32) < 128
}

/// What `str::to_lowercase` returns: ASCII text has each letter lower-cased
/// (see [`ascii_lowered`]); other text goes by the Unicode mapping.
pub open spec fn lowercased(s: Seq<char>) -> Seq<char> {
    if is_ascii_text(s) {
        ascii_lowered(s)
    } else {
        str_lowercase(s)
    }
}

/// What `str::to_uppercase` returns: ASCII text has each letter upper-cased
/// (see [`ascii_uppered`]); other text goes by the Unicode mapping.
pub open spec fn uppercased(s: Seq<char>) -> Seq<char> {
    if is_ascii_text(s) {
        ascii_uppered(s)
    } else {
        str_uppercase(s)
    }
}

/// A character with the Unicode `White_Space` property, which is what
/// `char::is_whitespace` tests: U+0009..U+000D, U+0020, U+0085, U+00A0,
/// U+1680, U+2000..U+200A, U+2028, U+2029, U+202F, U+205F and U+3000.
pub open spec fn is_white_space(c: char) -> bool {
    ||| '\u{9}' <= c <= '\u{D}'
    ||| c == ' '
    ||| c == '\u{85}'
    ||| c == '\u{A0}'
    ||| c == '\u{1680}'
    ||| '\u{2000}' <= c <= '\u{200A}'
    ||| c == '\u{2028}'
    ||| c == '\u{2029}'
    ||| c == '\u{202F}'
    ||| c == '\u{205F}'
    ||| c == '\u{3000}'
}

/// The characters without their leading white space.
pub open spec fn trim_start(s: Seq<char>) -> Seq<char>
    decreases s.len(),
{
    if s.len() > 0 && is_white_space(s[0]) {
        trim_start(s.drop_first())
    } else {
        s
    }
}

/// The characters without their trailing white space.
pub open spec fn trim_end(s: Seq<char>) -> Seq<char>
    decreases s.len(),
{
    if s.len() > 0 && is_white_space(s.last()) {
        trim_end(s.drop_last())
    } else {
        s
    }
}

/// What `str::trim` returns: the characters without their leading and
/// trailing white space.
pub open spec fn str_trim(s: Seq<char>) -> Seq<char> {
    trim_end(trim_start(s))
}

/// Calls `str::to_lowercase`.  The contract names the result and states
/// it for ASCII text, where each letter maps to its ASCII lower case; the
/// Unicode lower-case mapping of other characters is not restated here.
#[verifier::external_body]
pub(crate) fn to_lowercase(s: &str) -> (r: String)
    ensures
        r@ == str_lowercase(s@),
        is_ascii_text(s@) ==> r@ == ascii_lowered(s@),
{
    s.to_lowercase()
}

/// Calls `str::to_uppercase`.  The contract names the result and states
/// it for ASCII text, where each letter maps to its ASCII upper case; the
/// Unicode upper-case mapping of other characters is not restated here.
#[verifier::external_body]
pub(crate) fn to_uppercase(s: &str) -> (r: String)
    ensures
        r@ == str_uppercase(s@),
        is_ascii_text(s@) ==> r@ == ascii_uppered(s@),
{
    s.to_uppercase()
}

/// Whether a character is white space (see [`is_white_space`]).
pub(crate) fn white_space(c: char) -> (r: bool)
    ensures
        r == is_white_space(c),
{
    ('\u{9}' <= c && c <= '\u{D}') || c == ' ' || c == '\u{85}' || c == '\u{A0}' || c
        == '\u{1680}' || ('\u{2000}' <= c && c <= '\u{200A}') || c == '\u{2028}' || c
        == '\u{2029}' || c == '\u{202F}' || c == '\u{205F}' || c == '\u{3000}'
}

/// The text without its leading and trailing white space, as `str::trim`
/// gives it (see [`str_trim`]).
pub(crate) fn trim(s: &str) -> (r: &str)
    ensures
        r@ == str_trim(s@),
{
    let n = s.unicode_len();
    let mut start: usize = 0;
    assert(s@.subrange(0, n as int) =~= s@);
    while start < n && white_space(s.get_char(start))
        invariant
            n == s@.len(),
            start <= n,
            trim_start(s@) == trim_start(s@.subrange(start as int, n as int)),
        decreases n - start,
    {
        assert(s@.subrange(start as int, n as int).drop_first() =~= s@.subrange(
            start + 1,
            n as int,
        ));
        start = start + 1;
    }
    let ghost head = s@.subrange(start as int, n as int);
    assert(trim_start(head) == head);
    let mut end: usize = n;
    assert(head.subrange(0, (end - start) as int) =~= head);
    while end > start && white_space(s.get_char(end - 1))
        invariant
            n == s@.len(),
            start <= end <= n,
            head == s@.subrange(start as int, n as int),
            trim_end(head) == trim_end(s@.subrange(start as int, end as int)),
        decreases end,
    {
        assert(s@.subrange(start as int, end as int).drop_last() =~= s@.subrange(
            start as int,
            end - 1,
        ));
        end = end - 1;
    }
    let r = s.substring_char(start, end);
    assert(trim_end(r@) == r@);
    r
}

/// Calls `String::push`, which appends one character.
#[verifier::external_body]
pub(crate) fn push_char(s: &mut String, c: char)
    ensures
        final(s)@ == old(s)@.push(c),
{
    s.push(c)
}

/// The characters of a string, in order.
pub fn chars_of(s: &str) -> (v: Vec<char>)
    ensures
        v@ == s@,
{
    let n = s.unicode_len();
    let mut v: Vec<char> = Vec::new();
    let mut i: usize = 0;
    while i < n
        invariant
            n == s@.len(),
            i <= n,
            v@ == s@.subrange(0, i as int),
        decreases n - i,
    {
        let c = s.get_char(i);
        v.push(c);
        i = i + 1;
    }
    assert(s@.subrange(0, n as int) =~= s@);
    v
}

/// A `String` holding exactly the given characters.
pub fn string_from_chars(chars: &Vec<char>) -> (s: String)
    ensures
        s@ == chars@,
{
    let mut s = String::new();
    let mut i: usize = 0;
    while i < chars.len()
        invariant
            i <= chars.len(),
            s@ == chars@.subrange(0, i as int),
        decreases chars.len() - i,
    {
        push_char(&mut s, chars[i]);
        assert(chars@.subrange(0, i + 1) =~= chars@.subrange(0, i as int).push(chars@[i as int]));
        i = i + 1;
    }
    assert(chars@.subrange(0, chars.len() as int) =~= chars@);
    s
}

/// `needle` occurs in `hay` as a contiguous run of characters
/// (the empty needle occurs everywhere).
pub open spec fn has_substring(hay: Seq<char>, needle: Seq<char>) -> bool {
    exists|i: int|
        0 <= i && i + needle.len() <= hay.len() && #[trigger] hay.subrange(i, i + needle.len())
            == needle
}

/// Substring search over character vectors.
pub fn chars_contain(hay: &Vec<char>, needle: &Vec<char>) -> (r: bool)
    ensures
        r == has_substring(hay@, needle@),
{
    let n = hay.len();
    let m = needle.len();
    if m > n {
        return false;
    }
    let mut i: usize = 0;
    while i <= n - m
        invariant
            n == hay@.len(),
            m == needle@.len(),
            m <= n,
            i <= n - m + 1,
            forall|k: int| 0 <= k < i ==> #[trigger] hay@.subrange(k, k + m) != needle@,
        decreases n - m + 1 - i,
    {
        let mut j: usize = 0;
        while j < m && hay[i + j] == needle[j]
            invariant
                n == hay@.len(),
                m == needle@.len(),
                i + m <= n,
                j <= m,
                forall|t: int| 0 <= t < j ==> hay@[i + t] == needle@[t],
            decreases m - j,
        {
            j = j + 1;
        }
        if j == m {
            assert(hay@.subrange(i as int, i + m) =~= needle@);
            return true;
        }
        assert(hay@.subrange(i as int, i + m)[j as int] != needle@[j as int]);
        i = i + 1;
    }
    false
}

/// `str::contains` with a string pattern.
pub fn str_contains(hay: &str, needle: &str) -> (r: bool)
    ensures
        r == has_substring(hay@, needle@),
{
    let h = chars_of(hay);
    let n = chars_of(needle);
    chars_contain(&h, &n)
}

/// `str::contains` with a character pattern.
pub fn contains_char(s: &str, c: char) -> (r: bool)
    ensures
        r == s@.contains(c),
{
    let n = s.unicode_len();
    let mut i: usize = 0;
    while i < n
        invariant
            n == s@.len(),
            i <= n,
            forall|k: int| 0 <= k < i ==> s@[k] != c,
        decreases n - i,
    {
        if s.get_char(i) == c {
            assert(s@[i as int] == c);
            return true;
        }
        i = i + 1;
    }
    false
}

/// Two strings hold the same characters.
pub fn str_eq(a: &str, b: &str) -> (r: bool)
    ensures
        r == (a@ == b@),
{
    let n = a.unicode_len();
    if n != b.unicode_len() {
        return false;
    }
    let mut i: usize = 0;
    while i < n
        invariant
            n == a@.len(),
            n == b@.len(),
            i <= n,
            forall|k: int| 0 <= k < i ==> a@[k] == b@[k],
        decreases n - i,
    {
        if a.get_char(i) != b.get_char(i) {
            return false;
        }
        i = i + 1;
    }
    assert(a@ =~= b@);
    true
}

/// An ASCII decimal digit.
pub open spec fn is_digit(c: char) -> bool {
    '0' <= c <= '9'
}

/// The value of a run of decimal digits (most significant first).
pub open spec fn digits_value(s: Seq<char>) -> nat
    decreases s.len(),
{
    if s.len() == 0 {
        0
    } else {
        digits_value(s.drop_last()) * 10 + ((s.last() as int - '0' as int) as nat)
    }
}

/// The digits that an unsigned integer's `FromStr` reads: one leading `+`
/// is skipped when something follows it.
pub open spec fn unsigned_digits(s: Seq<char>) -> Seq<char> {
    if s.len() > 1 && s[0] == '+' {
        s.drop_first()
    } else {
        s
    }
}

/// What `FromStr` for an unsigned integer type with largest value `max`
/// gives: an optional `+`, then one or more decimal digits whose value
/// fits; anything else (empty input, a sign alone, `-`, whitespace,
/// other characters, overflow) is refused.
pub open spec fn parse_unsigned(s: Seq<char>, max: nat) -> Option<nat> {
    let d = unsigned_digits(s);
    if d.len() > 0 && (forall|i: int| 0 <= i < d.len() ==> is_digit(#[trigger] d[i]))
        && digits_value(d) <= max {
        Some(digits_value(d))
    } else {
        None
    }
}

proof fn lemma_digits_value_prefix_le(s: Seq<char>, k: int)
    requires
        0 <= k <= s.len(),
        forall|i: int| 0 <= i < s.len() ==> is_digit(#[trigger] s[i]),
    ensures
        digits_value(s.subrange(0, k)) <= digits_value(s),
    decreases s.len() - k,
{
    if k < s.len() {
        lemma_digits_value_prefix_le(s, k + 1);
        assert(s.subrange(0, k + 1).drop_last() =~= s.subrange(0, k));
    } else {
        assert(s.subrange(0, k) =~= s);
    }
}

/// Parses an unsigned decimal integer no larger than `max`, as the
/// `FromStr` impls of `u8` .. `u64` and `usize` do.
pub fn parse_unsigned_max(s: &str, max: u64) -> (r: Option<u64>)
    ensures
        match parse_unsigned(s@, max as nat) {
            Some(v) => r == Some(v as u64),
            None => r.is_none(),
        },
{
    let chars = chars_of(s);
    let len = chars.len();
    let start: usize = if len > 1 && chars[0] == '+' {
        1
    } else {
        0
    };
    let ghost d = unsigned_digits(s@);
    assert(d =~= chars@.subrange(start as int, len as int));
    if start == len {
        return None;
    }
    let mut value: u64 = 0;
    let mut i: usize = start;
    while i < len
        invariant
            chars@ == s@,
            len == chars@.len(),
            start <= i <= len,
            d == chars@.subrange(start as int, len as int),
            d == unsigned_digits(s@),
            forall|k: int| 0 <= k < i - start ==> is_digit(#[trigger] d[k]),
            value as nat == digits_value(d.subrange(0, i - start)),
            value <= max,
        decreases len - i,
    {
        let c = chars[i];
        if !('0' <= c && c <= '9') {
            assert(!is_digit(d[i - start]));
            return None;
        }
        let digit: u64 = (c as u64) - ('0' as u64);
        assert(d.subrange(0, i + 1 - start).drop_last() =~= d.subrange(0, i - start));
        assert(d.subrange(0, i + 1 - start).last() == c);
        if value > max / 10 || digit > max - value * 10 {
            proof {
                assert(value * 10 + digit > max) by (nonlinear_arith)
                    requires
                        value > max / 10 || digit > max - value * 10,
                        value * 10 <= max || value > max / 10,
                ;
                if forall|k: int| 0 <= k < d.len() ==> is_digit(#[trigger] d[k]) {
                    lemma_digits_value_prefix_le(d, i + 1 - start);
                }
            }
            return None;
        }
        value = value * 10 + digit;
        i = i + 1;
    }
    assert(d.subrange(0, len - start) =~= d);
    Some(value)
}

/// The ASCII character of a decimal digit.
pub open spec fn digit_char(d: nat) -> char {
    ((48 + d) as u8) as char
}

/// Base-10 rendering of a natural number, as `Display` writes it.
pub open spec fn decimal(n: nat) -> Seq<char>
    decreases n,
{
    if n < 10 {
        seq![digit_char(n)]
    } else {
        decimal(n / 10).push(digit_char(n % 10))
    }
}

/// The ASCII character of a hexadecimal digit, lower case.
pub open spec fn hex_char(d: nat) -> char {
    if d < 10 {
        ((48 + d) as u8) as char
    } else {
        ((87 + d) as u8) as char
    }
}

/// Base-16 rendering with lower-case digits, as `{:x}` writes it.
pub open spec fn hex(n: nat) -> Seq<char>
    decreases n,
{
    if n < 16 {
        seq![hex_char(n)]
    } else {
        hex(n / 16).push(hex_char(n % 16))
    }
}

/// The characters of `n` written in decimal.
pub fn decimal_chars(n: u128) -> (v: Vec<char>)
    ensures
        v@ == decimal(n as nat),
    decreases n,
{
    let d = (n % 10) as u8;
    let c = (48u8 + d) as char;
    if n < 10 {
        let mut v: Vec<char> = Vec::new();
        v.push(c);
        assert(v@ =~= seq![digit_char(n as nat)]);
        v
    } else {
        let mut v = decimal_chars(n / 10);
        v.push(c);
        v
    }
}

/// The characters of `n` written in lower-case hexadecimal.
pub fn hex_chars(n: u64) -> (v: Vec<char>)
    ensures
        v@ == hex(n as nat),
    decreases n,
{
    let d = (n % 16) as u8;
    let c = if d < 10 {
        (48u8 + d) as char
    } else {
        (87u8 + d) as char
    };
    if n < 16 {
        let mut v: Vec<char> = Vec::new();
        v.push(c);
        assert(v@ =~= seq![hex_char(n as nat)]);
        v
    } else {
        let mut v = hex_chars(n / 16);
        v.push(c);
        v
    }
}

/// `n.to_string()` for an unsigned integer.
pub fn decimal_string(n: u128) -> (s: String)
    ensures
        s@ == decimal(n as nat),
{
    let v = decimal_chars(n);
    string_from_chars(&v)
}

/// `n.to_string() == *text` for an unsigned integer.
pub fn decimal_matches(n: u128, text: &str) -> (r: bool)
    ensures
        r == (decimal(n as nat) == text@),
{
    let v = decimal_chars(n);
    let t = chars_of(text);
    if v.len() != t.len() {
        return false;
    }
    let mut i: usize = 0;
    while i < v.len()
        invariant
            v@ == decimal(n as nat),
            t@ == text@,
            v@.len() == t@.len(),
            i <= v@.len(),
            forall|k: int| 0 <= k < i ==> v@[k] == t@[k],
        decreases v.len() - i,
    {
        if v[i] != t[i] {
            assert(v@[i as int] != t@[i as int]);
            return false;
        }
        i = i + 1;
    }
    assert(v@ =~= t@);
    true
}

} // verus!

verus! {

/// An owned copy of a string.
pub fn string_from_literal(s: &str) -> (r: String)
    ensures
        r@ == s@,
{
    s.to_owned()
}

/// The concatenation `a + b + c` as an owned string.
pub fn concat3(a: &str, b: &str, c: &str) -> (r: String)
    ensures
        r@ == a@ + b@ + c@,
{
    let mut r = a.to_owned();
    r.append(b);
    r.append(c);
    r
}

} // verus!

verus! {

/// Whether the lower-cased `text` contains `value`.
pub fn lower_contains(text: &str, value: &str) -> (r: bool)
    ensures
        r == has_substring(lowercased(text@), value@),
{
    let lowered = to_lowercase(text);
    str_contains(lowered.as_str(), value)
}

} // verus!

verus! {

/// An empty `value` matches anything; otherwise the lower-cased `text`
/// must contain `value`.
pub open spec fn matches_text(text: Seq<char>, value: Seq<char>) -> bool {
    value.len() == 0 || has_substring(lowercased(text), value)
}

/// Checks [`matches_text`].
pub fn lower_contains_unless_empty(text: &str, value: &str) -> (r: bool)
    ensures
        r == matches_text(text@, value@),
{
    if value.is_empty() {
        return true;
    }
    lower_contains(text, value)
}

/// The two strings are equal once lower-cased.
pub fn lower_eq(a: &str, b: &str) -> (r: bool)
    ensures
        r == (lowercased(a@) == lowercased(b@)),
{
    let la = to_lowercase(a);
    let lb = to_lowercase(b);
    str_eq(la.as_str(), lb.as_str())
}

} // verus!

verus! {

/// What `str::parse::<u16>` gives.
pub open spec fn spec_parse_u16(s: Seq<char>) -> Option<u16> {
    match parse_unsigned(s, 65535) {
        Some(v) => Some(v as u16),
        None => None,
    }
}

/// `str::parse::<u16>`, with the error dropped.
pub fn parse_u16(s: &str) -> (r: Option<u16>)
    ensures
        r == spec_parse_u16(s@),
{
    match parse_unsigned_max(s, 65535) {
        Some(v) => Some(v as u16),
        None => None,
    }
}

} // verus!

verus! {

/// ASCII lower-casing of one character.
pub open spec fn ascii_lower(c: char) -> char {
    if 'A' <= c <= 'Z' {
        ((c as u32) + 32) as char
    } else {
        c
    }
}

/// ASCII lower-casing of every character.
pub open spec fn ascii_lowered(s: Seq<char>) -> Seq<char> {
    s.map_values(|c: char| ascii_lower(c))
}

/// ASCII text lower-cases character by character, so lower-casing ASCII
/// text before and after `s` lower-cases `s` in place; and the whole is
/// ASCII exactly when `s` is.
pub proof fn lemma_lowercased_between(a: Seq<char>, s: Seq<char>, b: Seq<char>)
    requires
        is_ascii_text(a),
        is_ascii_text(b),
    ensures
        is_ascii_text(a + s + b) == is_ascii_text(s),
        is_ascii_text(s) ==> lowercased(a + s + b) == ascii_lowered(a) + lowercased(s)
            + ascii_lowered(b),
{
    let w = a + s + b;
    if is_ascii_text(s) {
        assert forall|i: int| 0 <= i < w.len() implies (#[trigger] w[i] as u32) < 128 by {
            if i < a.len() {
                assert(w[i] == a[i]);
            } else if i < a.len() + s.len() {
                assert(w[i] == s[i - a.len()]);
            } else {
                assert(w[i] == b[i - a.len() - s.len()]);
            }
        }
        assert(ascii_lowered(w) =~= ascii_lowered(a) + ascii_lowered(s) + ascii_lowered(b));
    } else {
        let i = choose|i: int| 0 <= i < s.len() && !((#[trigger] s[i] as u32) < 128);
        assert(w[a.len() + i] == s[i]);
    }
}

/// ASCII text without capital letters lower-cases to itself.
pub(crate) proof fn lemma_lowercased_unchanged(w: Seq<char>)
    requires
        forall|i: int|
            0 <= i < w.len() ==> (#[trigger] w[i] as u32) < 128 && !('A' <= w[i] <= 'Z'),
    ensures
        lowercased(w) == w,
{
    assert(is_ascii_text(w));
    assert(ascii_lowered(w) =~= w);
}

/// A text that neither starts nor ends with white space trims to itself.
pub(crate) proof fn lemma_trim_unchanged(w: Seq<char>)
    requires
        w.len() > 0,
        !is_white_space(w[0]),
        !is_white_space(w.last()),
    ensures
        str_trim(w) == w,
{
    assert(trim_start(w) == w);
    assert(trim_end(w) == w);
}

/// ASCII upper-casing of one character.
pub open spec fn ascii_upper(c: char) -> char {
    if 'a' <= c <= 'z' {
        ((c as u32) - 32) as char
    } else {
        c
    }
}

/// ASCII upper-casing of every character.
pub open spec fn ascii_uppered(s: Seq<char>) -> Seq<char> {
    s.map_values(|c: char| ascii_upper(c))
}

/// Every character is a decimal digit.
pub open spec fn all_digits(s: Seq<char>) -> bool {
    forall|i: int| 0 <= i < s.len() ==> is_digit(#[trigger] s[i])
}

/// The first position holding `a` or `b`.
pub open spec fn first_of(s: Seq<char>, a: char, b: char) -> Option<int>
    decreases s.len(),
{
    if s.len() == 0 {
        None
    } else if s[0] == a || s[0] == b {
        Some(0)
    } else {
        match first_of(s.drop_first(), a, b) {
            Some(k) => Some(k + 1),
            None => None,
        }
    }
}

/// The digits of a number, with at most one `.` and at least one digit.
pub open spec fn is_mantissa(s: Seq<char>) -> bool {
    match first_of(s, '.', '.') {
        None => s.len() > 0 && all_digits(s),
        Some(k) => s.len() > 1 && all_digits(s.subrange(0, k)) && all_digits(
            s.subrange(k + 1, s.len() as int),
        ),
    }
}

/// An exponent after the `e`: an optional sign, then one or more digits.
pub open spec fn is_exponent(s: Seq<char>) -> bool {
    let d = if s.len() > 0 && (s[0] == '+' || s[0] == '-') {
        s.drop_first()
    } else {
        s
    };
    d.len() > 0 && all_digits(d)
}

/// A mantissa, optionally followed by `e` or `E` and an exponent.
pub open spec fn is_decimal_number(s: Seq<char>) -> bool {
    match first_of(s, 'e', 'E') {
        None => is_mantissa(s),
        Some(k) => is_mantissa(s.subrange(0, k)) && is_exponent(s.subrange(k + 1, s.len() as int)),
    }
}

/// The text that `f64`'s `FromStr` accepts: an optional sign, then `inf`,
/// `infinity` or `nan` in any ASCII case, or a decimal number.
pub open spec fn is_float_text(s: Seq<char>) -> bool {
    let body = if s.len() > 0 && (s[0] == '+' || s[0] == '-') {
        s.drop_first()
    } else {
        s
    };
    let lower = ascii_lowered(body);
    lower == "inf"@ || lower == "infinity"@ || lower == "nan"@ || is_decimal_number(body)
}

proof fn lemma_first_of(s: Seq<char>, a: char, b: char, k: int)
    requires
        0 <= k <= s.len(),
        forall|i: int| 0 <= i < k ==> s[i] != a && s[i] != b,
    ensures
        k == s.len() ==> first_of(s, a, b) is None,
        k < s.len() && (s[k] == a || s[k] == b) ==> first_of(s, a, b) == Some(k),
    decreases k,
{
    if k > 0 {
        lemma_first_of(s.drop_first(), a, b, k - 1);
    }
}

proof fn lemma_first_of_bounds(s: Seq<char>, a: char, b: char)
    ensures
        first_of(s, a, b) matches Some(k) ==> 0 <= k < s.len() && (s[k] == a || s[k] == b),
    decreases s.len(),
{
    if s.len() > 0 {
        lemma_first_of_bounds(s.drop_first(), a, b);
    }
}

/// Finds [`first_of`] in `v[from..]`, giving an index into `v`.
fn find_first_of(v: &Vec<char>, from: usize, a: char, b: char) -> (r: Option<usize>)
    requires
        from <= v@.len(),
    ensures
        match first_of(v@.subrange(from as int, v@.len() as int), a, b) {
            Some(k) => 0 <= k && from + k < v@.len() && r == Some((from + k) as usize),
            None => r is None,
        },
        r matches Some(i) ==> from <= i < v@.len(),
{
    let ghost s = v@.subrange(from as int, v@.len() as int);
    proof {
        lemma_first_of_bounds(s, a, b);
    }
    let mut i: usize = from;
    while i < v.len()
        invariant
            from <= i <= v@.len(),
            s == v@.subrange(from as int, v@.len() as int),
            forall|j: int| 0 <= j < i - from ==> s[j] != a && s[j] != b,
        decreases v.len() - i,
    {
        if v[i] == a || v[i] == b {
            proof {
                lemma_first_of(s, a, b, i - from);
            }
            return Some(i);
        }
        i = i + 1;
    }
    proof {
        lemma_first_of(s, a, b, i - from);
    }
    None
}

/// Whether `v[from..to]` is all digits.
fn digits_between(v: &Vec<char>, from: usize, to: usize) -> (r: bool)
    requires
        from <= to <= v@.len(),
    ensures
        r == all_digits(v@.subrange(from as int, to as int)),
{
    let mut i: usize = from;
    while i < to
        invariant
            from <= i <= to,
            to <= v@.len(),
            forall|j: int| from <= j < i ==> is_digit(#[trigger] v@[j]),
        decreases to - i,
    {
        if !('0' <= v[i] && v[i] <= '9') {
            assert(!is_digit(v@.subrange(from as int, to as int)[i - from]));
            return false;
        }
        i = i + 1;
    }
    assert forall|j: int| 0 <= j < to - from implies is_digit(
        #[trigger] v@.subrange(from as int, to as int)[j],
    ) by {
        assert(v@.subrange(from as int, to as int)[j] == v@[from + j]);
    }
    true
}

/// Checks [`is_mantissa`] on `v[from..to]`.
fn mantissa_between(v: &Vec<char>, from: usize, to: usize) -> (r: bool)
    requires
        from <= to <= v@.len(),
    ensures
        r == is_mantissa(v@.subrange(from as int, to as int)),
{
    let ghost s = v@.subrange(from as int, to as int);
    let slice = slice_chars(v, from, to);
    assert(slice@.subrange(0, slice@.len() as int) =~= s);
    assert(slice@ =~= s);
    let dot = find_first_of(&slice, 0, '.', '.');
    match dot {
        None => {
            assert(first_of(s, '.', '.') is None);
            if slice.len() == 0 {
                return false;
            }
            let all = digits_between(&slice, 0, slice.len());
            assert(all == all_digits(s));
            all
        },
        Some(k) => {
            assert(first_of(s, '.', '.') == Some(k as int));
            if slice.len() <= 1 {
                return false;
            }
            let before = digits_between(&slice, 0, k);
            let after = digits_between(&slice, k + 1, slice.len());
            assert(before == all_digits(s.subrange(0, k as int)));
            assert(after == all_digits(s.subrange(k + 1, s.len() as int)));
            before && after
        },
    }
}

/// `v[from..to]` as a vector.
fn slice_chars(v: &Vec<char>, from: usize, to: usize) -> (r: Vec<char>)
    requires
        from <= to <= v@.len(),
    ensures
        r@ == v@.subrange(from as int, to as int),
{
    let mut r: Vec<char> = Vec::new();
    let mut i: usize = from;
    while i < to
        invariant
            from <= i <= to,
            to <= v@.len(),
            r@ == v@.subrange(from as int, i as int),
        decreases to - i,
    {
        r.push(v[i]);
        assert(v@.subrange(from as int, i + 1) =~= v@.subrange(from as int, i as int).push(v@[i as int]));
        i = i + 1;
    }
    r
}

/// Whether the characters, ASCII-lower-cased, spell `word`.
fn lower_spells(v: &Vec<char>, from: usize, word: &str) -> (r: bool)
    requires
        from <= v@.len(),
    ensures
        r == (ascii_lowered(v@.subrange(from as int, v@.len() as int)) == word@),
{
    let ghost lowered = ascii_lowered(v@.subrange(from as int, v@.len() as int));
    let w = chars_of(word);
    let vlen = v.len();
    if vlen - from != w.len() {
        return false;
    }
    let mut i: usize = 0;
    while i < w.len()
        invariant
            vlen == v@.len(),
            from <= vlen,
            vlen - from == w@.len(),
            w@ == word@,
            lowered == ascii_lowered(v@.subrange(from as int, v@.len() as int)),
            i <= w@.len(),
            forall|j: int| 0 <= j < i ==> lowered[j] == w@[j],
        decreases w.len() - i,
    {
        assert(from + i < v@.len());
        let c = v[from + i];
        let l = if 'A' <= c && c <= 'Z' {
            ((c as u32) + 32) as u8 as char
        } else {
            c
        };
        assert(lowered[i as int] == ascii_lower(c));
        if l != w[i] {
            assert(lowered[i as int] != w@[i as int]);
            return false;
        }
        i = i + 1;
    }
    assert(lowered =~= w@);
    true
}

/// Checks [`is_float_text`].
pub fn float_text(s: &str) -> (r: bool)
    ensures
        r == is_float_text(s@),
{
    let v = chars_of(s);
    let start: usize = if v.len() > 0 && (v[0] == '+' || v[0] == '-') {
        1
    } else {
        0
    };
    let ghost body = v@.subrange(start as int, v@.len() as int);
    assert(body =~= (if s@.len() > 0 && (s@[0] == '+' || s@[0] == '-') {
        s@.drop_first()
    } else {
        s@
    }));
    if lower_spells(&v, start, "inf") || lower_spells(&v, start, "infinity") || lower_spells(
        &v,
        start,
        "nan",
    ) {
        return true;
    }
    let n = v.len();
    match find_first_of(&v, start, 'e', 'E') {
        None => mantissa_between(&v, start, n),
        Some(e) => {
            assert(body.subrange(0, e - start) =~= v@.subrange(start as int, e as int));
            assert(body.subrange(e - start + 1, body.len() as int) =~= v@.subrange(
                e + 1,
                n as int,
            ));
            if !mantissa_between(&v, start, e) {
                return false;
            }
            let exp_start: usize = if e + 1 < n && (v[e + 1] == '+' || v[e + 1] == '-') {
                e + 2
            } else {
                e + 1
            };
            let ghost exp = v@.subrange(e + 1, n as int);
            assert(v@.subrange(exp_start as int, n as int) =~= (if exp.len() > 0 && (exp[0] == '+'
                || exp[0] == '-') {
                exp.drop_first()
            } else {
                exp
            }));
            exp_start < n && digits_between(&v, exp_start, n)
        },
    }
}

} // verus!

verus! {

/// `s` ends with `suffix`.
pub open spec fn has_suffix(s: Seq<char>, suffix: Seq<char>) -> bool {
    suffix.len() <= s.len() && s.subrange(s.len() - suffix.len(), s.len() as int) == suffix
}

/// `str::ends_with` for a string suffix.
pub fn str_ends_with(s: &str, suffix: &str) -> (r: bool)
    ensures
        r == has_suffix(s@, suffix@),
{
    let n = s.unicode_len();
    let m = suffix.unicode_len();
    if m > n {
        return false;
    }
    let start = n - m;
    let mut i: usize = 0;
    while i < m
        invariant
            n == s@.len(),
            m == suffix@.len(),
            start == n - m,
            i <= m,
            forall|k: int| 0 <= k < i ==> s@[start + k] == suffix@[k],
        decreases m - i,
    {
        if s.get_char(start + i) != suffix.get_char(i) {
            assert(s@.subrange(start as int, n as int)[i as int] != suffix@[i as int]);
            return false;
        }
        i = i + 1;
    }
    assert(s@.subrange(start as int, n as int) =~= suffix@);
    true
}

} // verus!

verus! {

/// The value of a hexadecimal digit (either case), if `c` is one.
pub open spec fn hex_digit_value(c: char) -> Option<nat> {
    if '0' <= c <= '9' {
        Some((c as int - '0' as int) as nat)
    } else if 'a' <= c <= 'f' {
        Some((c as int - 'a' as int + 10) as nat)
    } else if 'A' <= c <= 'F' {
        Some((c as int - 'A' as int + 10) as nat)
    } else {
        None
    }
}

/// The value of a run of hexadecimal digits (most significant first).
pub open spec fn hex_digits_value(s: Seq<char>) -> nat
    decreases s.len(),
{
    if s.len() == 0 {
        0
    } else {
        hex_digits_value(s.drop_last()) * 16 + match hex_digit_value(s.last()) {
            Some(d) => d,
            None => 0,
        }
    }
}

/// `u32::from_str_radix(s, 16)`: one or more hexadecimal digits whose value
/// fits in a `u32`.
pub open spec fn parse_hex_u32(s: Seq<char>) -> Option<u32> {
    if s.len() > 0 && (forall|i: int| 0 <= i < s.len() ==> #[trigger] hex_digit_value(s[i]) is Some)
        && hex_digits_value(s) <= u32::MAX {
        Some(hex_digits_value(s) as u32)
    } else {
        None
    }
}

proof fn lemma_hex_prefix_le(s: Seq<char>, k: int)
    requires
        0 <= k <= s.len(),
    ensures
        hex_digits_value(s.subrange(0, k)) <= hex_digits_value(s),
    decreases s.len() - k,
{
    if k < s.len() {
        lemma_hex_prefix_le(s, k + 1);
        assert(s.subrange(0, k + 1).drop_last() =~= s.subrange(0, k));
    } else {
        assert(s.subrange(0, k) =~= s);
    }
}

/// Reads a hexadecimal `u32` (see [`parse_hex_u32`]).
pub fn hex_u32(s: &str) -> (r: Option<u32>)
    ensures
        r == parse_hex_u32(s@),
{
    let n = s.unicode_len();
    if n == 0 {
        return None;
    }
    let mut value: u64 = 0;
    let mut i: usize = 0;
    assert(s@.subrange(0, 0) =~= Seq::<char>::empty());
    while i < n
        invariant
            n == s@.len(),
            i <= n,
            forall|k: int| 0 <= k < i ==> #[trigger] hex_digit_value(s@[k]) is Some,
            value as nat == hex_digits_value(s@.subrange(0, i as int)),
            value <= u32::MAX,
        decreases n - i,
    {
        let c = s.get_char(i);
        let d: u64 = if '0' <= c && c <= '9' {
            (c as u64) - ('0' as u64)
        } else if 'a' <= c && c <= 'f' {
            (c as u64) - ('a' as u64) + 10
        } else if 'A' <= c && c <= 'F' {
            (c as u64) - ('A' as u64) + 10
        } else {
            assert(hex_digit_value(s@[i as int]) is None);
            return None;
        };
        assert(s@.subrange(0, i + 1).drop_last() =~= s@.subrange(0, i as int));
        assert(s@.subrange(0, i + 1).last() == c);
        assert(hex_digit_value(c) == Some(d as nat));
        let next = value * 16 + d;
        if next > 0xFFFF_FFFF {
            proof {
                lemma_hex_prefix_le(s@, i + 1);
            }
            return None;
        }
        value = next;
        i = i + 1;
    }
    assert(s@.subrange(0, n as int) =~= s@);
    Some(value as u32)
}

/// From position `i` on, the characters of `hay` are those of `needle`.
pub open spec fn occurs_at(hay: Seq<char>, needle: Seq<char>, i: int) -> bool {
    &&& 0 <= i
    &&& i + needle.len() <= hay.len()
    &&& forall|k: int| 0 <= k < needle.len() ==> #[trigger] hay[i + k] == needle[k]
}

/// `needle` occurs in `hay` exactly when it occurs at some position.
pub proof fn lemma_substring_at(hay: Seq<char>, needle: Seq<char>)
    ensures
        has_substring(hay, needle) == exists|i: int| #[trigger] occurs_at(hay, needle, i),
{
    if has_substring(hay, needle) {
        let i = choose|i: int|
            0 <= i && i + needle.len() <= hay.len() && #[trigger] hay.subrange(i, i + needle.len())
                == needle;
        assert forall|k: int| 0 <= k < needle.len() implies #[trigger] hay[i + k] == needle[k] by {
            assert(hay.subrange(i, i + needle.len())[k] == hay[i + k]);
        }
        assert(occurs_at(hay, needle, i));
    }
    if exists|i: int| #[trigger] occurs_at(hay, needle, i) {
        let i = choose|i: int| #[trigger] occurs_at(hay, needle, i);
        assert forall|k: int| 0 <= k < needle.len() implies #[trigger] hay.subrange(
            i,
            i + needle.len(),
        )[k] == needle[k] by {
            assert(hay[i + k] == needle[k]);
        }
        assert(hay.subrange(i, i + needle.len()) =~= needle);
    }
}

/// Lower-casing ASCII text keeps its length and turns each capital letter
/// into its small letter, leaving every other character as it is.
pub proof fn lemma_lowercased_ascii(s: Seq<char>)
    requires
        is_ascii_text(s),
    ensures
        lowercased(s).len() == s.len(),
        forall|i: int|
            0 <= i < s.len() ==> #[trigger] lowercased(s)[i] == (if 'A' <= s[i] <= 'Z' {
                ((s[i] as u32) + 32) as char
            } else {
                s[i]
            }),
{
}

/// The decimal text of a number: one digit below ten, and otherwise the
/// text of its tenth followed by its last digit.
pub proof fn lemma_decimal_digits(n: nat)
    ensures
        n < 10 ==> decimal(n) == seq![((48 + n) as u8) as char],
        n >= 10 ==> decimal(n) == decimal(n / 10).push(((48 + n % 10) as u8) as char),
{
}

} // verus!
