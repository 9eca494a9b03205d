use vstd::prelude::*;

verus! {

/// `needle` occurs in `hay` as a contiguous run.
pub open spec fn contains_seq(hay: Seq<char>, needle: Seq<char>) -> bool {
    exists|i: int|
        0 <= i && i + needle.len() <= hay.len() && #[trigger] hay.subrange(i, i + needle.len())
            == needle
}

/// A lower-case letter, Latin or Cyrillic: a character that a regular expression
/// reads as itself.
pub open spec fn is_keyword_letter(c: char) -> bool {
    ('a' <= c && c <= 'z') || ('а' <= c && c <= 'я') || c == 'ё'
}

/// A short non-empty word of lower-case letters.
pub open spec fn is_keyword(p: Seq<char>) -> bool {
    0 < p.len() && p.len() <= 64 && forall|i: int| 0 <= i < p.len() ==> is_keyword_letter(#[trigger] p[i])
}

/// Relies on `regex::RegexSet::new`, `RegexSet::matches` and `SetMatches::matched`:
/// a few patterns of plain letters compile into one set, and pattern `i` matches
/// exactly the texts that hold it as a substring.
#[verifier::external_body]
pub(crate) fn regex_set_finds(patterns: &Vec<String>, text: &str) -> (r: Option<Vec<bool>>)
    requires
        patterns@.len() <= 64,
        forall|i: int| 0 <= i < patterns@.len() ==> is_keyword(#[trigger] patterns@[i]@),
    ensures
        r is Some,
        r->Some_0@.len() == patterns@.len(),
        forall|i: int|
            0 <= i < patterns@.len() ==> #[trigger] r->Some_0@[i] == contains_seq(text@, patterns@[i]@),
{
    regex::RegexSet::new(patterns).ok().map(|set| {
        let found = set.matches(text);
        (0..patterns.len()).map(|i| found.matched(i)).collect()
    })
}

/// What `str::to_lowercase` makes of a text.
pub uninterp spec fn lower_of(s: Seq<char>) -> Seq<char>;

/// Relies on `str::to_lowercase`: the result depends on the characters alone.
#[verifier::external_body]
pub(crate) fn lowercase(s: &str) -> (r: String)
    ensures
        r@ == lower_of(s@),
{
    s.to_lowercase()
}

/// A white-space character, as `char::is_whitespace` has it: the Unicode
/// `White_Space` property.
pub open spec fn is_space(c: char) -> bool {
    ('\t' <= c && c <= '\r') || c == ' ' || c == '\u{85}' || c == '\u{a0}' || c == '\u{1680}'
        || ('\u{2000}' <= c && c <= '\u{200a}') || c == '\u{2028}' || c == '\u{2029}'
        || c == '\u{202f}' || c == '\u{205f}' || c == '\u{3000}'
}

fn char_is_space(c: char) -> (r: bool)
    ensures
        r == is_space(c),
{
    ('\t' <= c && c <= '\r') || c == ' ' || c == '\u{85}' || c == '\u{a0}' || c == '\u{1680}'
        || ('\u{2000}' <= c && c <= '\u{200a}') || c == '\u{2028}' || c == '\u{2029}'
        || c == '\u{202f}' || c == '\u{205f}' || c == '\u{3000}'
}

/// Index of the first non-space character at or after `i`, or the length.
pub open spec fn text_start(s: Seq<char>, i: int) -> int
    decreases s.len() - i,
{
    if i < 0 || i >= s.len() {
        s.len() as int
    } else if !is_space(s[i]) {
        i
    } else {
        text_start(s, i + 1)
    }
}

/// One past the last non-space character before `j`, or 0.
pub open spec fn text_end(s: Seq<char>, j: int) -> int
    decreases j,
{
    if j <= 0 || j > s.len() {
        0
    } else if !is_space(s[j - 1]) {
        j
    } else {
        text_end(s, j - 1)
    }
}

/// A text without its leading and trailing white space.
pub open spec fn trim_of(s: Seq<char>) -> Seq<char> {
    let i = text_start(s, 0);
    let j = text_end(s, s.len() as int);
    if i < j {
        s.subrange(i, j)
    } else {
        Seq::empty()
    }
}

/// `s` without its leading and trailing white space.
pub fn trim(s: &str) -> (r: String)
    ensures
        r@ == trim_of(s@),
{
    let n = s.unicode_len();
    let mut i: usize = 0;
    while i < n && char_is_space(s.get_char(i))
        invariant
            n == s@.len(),
            0 <= i <= n,
            text_start(s@, 0) == text_start(s@, i as int),
        decreases n - i,
    {
        i = i + 1;
    }
    let mut j: usize = n;
    while j > 0 && char_is_space(s.get_char(j - 1))
        invariant
            n == s@.len(),
            0 <= j <= n,
            text_end(s@, n as int) == text_end(s@, j as int),
        decreases j,
    {
        j = j - 1;
    }
    if i < j {
        String::from_str(s.substring_char(i, j))
    } else {
        String::new()
    }
}

/// The character that separates a plant's name from the rest of a title.
pub const NAME_SEPARATOR: char = '—';

/// Index of the first separator at or after `i`, or the length if none.
pub open spec fn separator_from(s: Seq<char>, i: int) -> int
    decreases s.len() - i,
{
    if i < 0 || i >= s.len() {
        s.len() as int
    } else if s[i] == NAME_SEPARATOR {
        i
    } else {
        separator_from(s, i + 1)
    }
}

/// The part of a title before its first separator.
pub open spec fn before_separator(s: Seq<char>) -> Seq<char> {
    s.subrange(0, separator_from(s, 0))
}

/// The record name that a page title gives: what precedes the first separator,
/// trimmed.
pub open spec fn name_of_title(s: Seq<char>) -> Seq<char> {
    trim_of(before_separator(s))
}

/// The text of `title` up to its first separator, without the separator.
pub fn cut_at_separator(title: &str) -> (r: &str)
    ensures
        r@ == before_separator(title@),
{
    let n = title.unicode_len();
    let mut i: usize = 0;
    while i < n && title.get_char(i) != NAME_SEPARATOR
        invariant
            n == title@.len(),
            0 <= i <= n,
            separator_from(title@, 0) == separator_from(title@, i as int),
        decreases n - i,
    {
        i = i + 1;
    }
    title.substring_char(0, i)
}

/// The record name that a page title gives.
pub fn name_from_title(title: &str) -> (r: String)
    ensures
        r@ == name_of_title(title@),
{
    trim(cut_at_separator(title))
}

/// The decimal digit for `d < 10`.
pub open spec fn digit_char(d: nat) -> char {
    if d == 0 { '0' }
    else if d == 1 { '1' }
    else if d == 2 { '2' }
    else if d == 3 { '3' }
    else if d == 4 { '4' }
    else if d == 5 { '5' }
    else if d == 6 { '6' }
    else if d == 7 { '7' }
    else if d == 8 { '8' }
    else { '9' }
}

/// `n` written in decimal, without leading zeros.
pub open spec fn decimal(n: nat) -> Seq<char>
    decreases n,
{
    if n < 10 {
        seq![digit_char(n)]
    } else {
        decimal(n / 10).push(digit_char(n % 10))
    }
}

/// `x` written in decimal, with a minus sign when negative.
pub open spec fn signed_decimal(x: int) -> Seq<char> {
    if x < 0 {
        seq!['-'] + decimal((-x) as nat)
    } else {
        decimal(x as nat)
    }
}

fn digit_str(d: u128) -> (r: &'static str)
    requires
        d < 10,
    ensures
        r@ == seq![digit_char(d as nat)],
{
    proof {
        reveal_strlit("0");
        reveal_strlit("1");
        reveal_strlit("2");
        reveal_strlit("3");
        reveal_strlit("4");
        reveal_strlit("5");
        reveal_strlit("6");
        reveal_strlit("7");
        reveal_strlit("8");
        reveal_strlit("9");
    }
    if d == 0 { "0" }
    else if d == 1 { "1" }
    else if d == 2 { "2" }
    else if d == 3 { "3" }
    else if d == 4 { "4" }
    else if d == 5 { "5" }
    else if d == 6 { "6" }
    else if d == 7 { "7" }
    else if d == 8 { "8" }
    else { "9" }
}

/// Appends `n` in decimal to `out`.
pub fn push_decimal(n: u128, out: &mut String)
    ensures
        final(out)@ == old(out)@ + decimal(n as nat),
    decreases n,
{
    if n >= 10 {
        push_decimal(n / 10, out);
    }
    out.append(digit_str(n % 10));
    proof {
        if n >= 10 {
            assert(decimal(n as nat) == decimal((n / 10) as nat).push(digit_char((n % 10) as nat)));
        }
    }
}

/// `x` in decimal, with a minus sign when negative.
pub fn signed_to_decimal(x: i64) -> (r: String)
    ensures
        r@ == signed_decimal(x as int),
{
    let mut out = String::new();
    if x < 0 {
        proof {
            reveal_strlit("-");
        }
        out.append("-");
        let m: u128 = (0i128 - x as i128) as u128;
        push_decimal(m, &mut out);
    } else {
        push_decimal(x as u128, &mut out);
    }
    out
}

/// Whether `needle` occurs in `hay` starting at position `i`.
fn occurs_at(hay: &str, needle: &str, i: usize) -> (r: bool)
    requires
        i + needle@.len() <= hay@.len(),
    ensures
        r == (hay@.subrange(i as int, i + needle@.len()) == needle@),
{
    let m = needle.unicode_len();
    let n = hay.unicode_len();
    let mut k: usize = 0;
    while k < m
        invariant
            m == needle@.len(),
            n == hay@.len(),
            i + m <= hay@.len(),
            0 <= k <= m,
            forall|j: int| 0 <= j < k ==> hay@[i + j] == needle@[j],
        decreases m - k,
    {
        if hay.get_char(i + k) != needle.get_char(k) {
            assert(hay@.subrange(i as int, i + m)[k as int] != needle@[k as int]);
            return false;
        }
        k = k + 1;
    }
    assert(hay@.subrange(i as int, i + m) =~= needle@);
    true
}

/// Whether `needle` occurs in `hay` as a contiguous run.
pub fn text_contains(hay: &str, needle: &str) -> (r: bool)
    ensures
        r == contains_seq(hay@, needle@),
{
    let n = hay.unicode_len();
    let m = needle.unicode_len();
    if m > n {
        return false;
    }
    if m == 0 {
        assert(hay@.subrange(0int, 0int + needle@.len()) =~= needle@);
        return true;
    }
    let mut i: usize = 0;
    while i <= n - m
        invariant
            n == hay@.len(),
            m == needle@.len(),
            1 <= m <= n,
            0 <= i <= n - m + 1,
            forall|j: int| 0 <= j < i ==> #[trigger] hay@.subrange(j, j + m) != needle@,
        decreases n - m + 1 - i,
    {
        if occurs_at(hay, needle, i) {
            return true;
        }
        i = i + 1;
    }
    false
}

/// Whether two texts are equal, character by character.
pub fn same_text(a: &str, b: &str) -> (r: bool)
    ensures
        r == (a@ == b@),
{
    let n = a.unicode_len();
    if n != b.unicode_len() {
        return false;
    }
    let mut i: usize = 0;
    while i < n
        invariant
            n == a@.len(),
            n == b@.len(),
            0 <= i <= n,
            forall|k: int| 0 <= k < i ==> a@[k] == b@[k],
        decreases n - i,
    {
        if a.get_char(i) != b.get_char(i) {
            return false;
        }
        i = i + 1;
    }
    assert(a@ =~= b@);
    true
}

} // verus!
