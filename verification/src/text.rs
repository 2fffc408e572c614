//! Small verified string utilities shared by the other modules.

use vstd::prelude::*;
use vstd::string::*;

verus! {

/// Whether two texts are equal, compared character by character.
pub fn str_eq(a: &str, b: &str) -> (r: bool)
    ensures
        r == (a@ == b@),
{
    let n = a.unicode_len();
    if n != b.unicode_len() {
        return false;
    }
    let mut i: usize = 0;
    while i < n
        invariant
            n == a@.len(),
            n == b@.len(),
            i <= n,
            forall|j: int| 0 <= j < i ==> a@[j] == b@[j],
        decreases n - i,
    {
        if a.get_char(i) != b.get_char(i) {
            return false;
        }
        i = i + 1;
    }
    assert(a@ =~= b@);
    true
}

/// Calls `String::push`: the character is appended.
#[verifier::external_body]
pub(crate) fn push_char(s: &mut String, c: char)
    ensures
        final(s)@ == old(s)@.push(c),
{
    s.push(c)
}

/// Index of the first `c` in `s`, or `s.len()` when there is none.
pub open spec fn index_of(s: Seq<char>, c: char) -> int
    decreases s.len(),
{
    if s.len() == 0 {
        0
    } else if s[0] == c {
        0
    } else {
        1 + index_of(s.drop_first(), c)
    }
}

pub proof fn lemma_index_of(s: Seq<char>, c: char, i: int)
    requires
        0 <= i <= s.len(),
        forall|k: int| 0 <= k < i ==> s[k] != c,
        i == s.len() || s[i] == c,
    ensures
        index_of(s, c) == i,
    decreases s.len(),
{
    if s.len() > 0 && i > 0 {
        assert forall|k: int| 0 <= k < i - 1 implies s.drop_first()[k] != c by {
            assert(s[k + 1] != c);
        }
        lemma_index_of(s.drop_first(), c, i - 1);
    }
}

/// Index of the first `c` in `s` at or after `from`, or the length of `s`.
pub fn find_char_from(s: &str, c: char, from: usize) -> (r: usize)
    requires
        from <= s@.len(),
    ensures
        r as int == from + index_of(s@.subrange(from as int, s@.len() as int), c),
        from <= r <= s@.len(),
{
    let n = s.unicode_len();
    let mut i = from;
    while i < n
        invariant
            n == s@.len(),
            from <= i <= n,
            forall|k: int| from <= k < i ==> s@[k] != c,
        decreases n - i,
    {
        if s.get_char(i) == c {
            proof {
                lemma_index_of(s@.subrange(from as int, n as int), c, i - from);
            }
            return i;
        }
        i = i + 1;
    }
    proof {
        lemma_index_of(s@.subrange(from as int, n as int), c, n - from);
    }
    n
}

// ── Case and character classes ─────────────────────────────────────────

/// Whether every character is ASCII.
pub open spec fn all_ascii(s: Seq<char>) -> bool {
    forall|i: int| 0 <= i < s.len() ==> s[i] <= '\x7f'
}

/// The ASCII lowercase of a character (others unchanged).
pub open spec fn ascii_lower_char(c: char) -> char {
    if 'A' <= c <= 'Z' {
        ((c as int) + 32) as char
    } else {
        c
    }
}

/// The ASCII uppercase of a character (others unchanged).
pub open spec fn ascii_upper_char(c: char) -> char {
    if 'a' <= c <= 'z' {
        ((c as int) - 32) as char
    } else {
        c
    }
}

/// Whether an ASCII character is a letter or a digit.
pub open spec fn ascii_alnum(c: char) -> bool {
    ('a' <= c <= 'z') || ('A' <= c <= 'Z') || ('0' <= c <= '9')
}

/// What `str::to_lowercase` returns: the Unicode lowercase mapping of the text.
pub uninterp spec fn lowercase_spec(s: Seq<char>) -> Seq<char>;

/// What `str::to_uppercase` returns: the Unicode uppercase mapping of the text.
pub uninterp spec fn uppercase_spec(s: Seq<char>) -> Seq<char>;

/// What `char::is_alphanumeric` returns: whether the character is
/// Unicode-alphabetic or Unicode-numeric.
pub uninterp spec fn alphanumeric_spec(c: char) -> bool;

/// Calls `str::to_lowercase`. The result is named by `lowercase_spec`; on
/// ASCII text it is the ASCII lowercase, character by character (every ASCII
/// character lowercases to one ASCII character). What it is on other text is
/// left to the name.
#[verifier::external_body]
pub(crate) fn to_lowercase(s: &str) -> (r: String)
    ensures
        r@ == lowercase_spec(s@),
        all_ascii(s@) ==> r@ == s@.map_values(|c: char| ascii_lower_char(c)),
{
    s.to_lowercase()
}

/// Calls `str::to_uppercase`. The result is named by `uppercase_spec`; on
/// ASCII text it is the ASCII uppercase, character by character. What it is
/// on other text is left to the name.
#[verifier::external_body]
pub(crate) fn to_uppercase(s: &str) -> (r: String)
    ensures
        r@ == uppercase_spec(s@),
        all_ascii(s@) ==> r@ == s@.map_values(|c: char| ascii_upper_char(c)),
{
    s.to_uppercase()
}

/// Calls `char::is_alphanumeric`. The result is named by
/// `alphanumeric_spec`; on ASCII it is true exactly of letters and digits.
#[verifier::external_body]
pub(crate) fn is_alphanumeric(c: char) -> (r: bool)
    ensures
        r == alphanumeric_spec(c),
        c <= '\x7f' ==> r == ascii_alnum(c),
{
    c.is_alphanumeric()
}

// ── Whitespace trimming ────────────────────────────────────────────────

/// The characters with the Unicode `White_Space` property, as
/// `char::is_whitespace` documents them.
pub open spec fn is_white_space(c: char) -> bool {
    ('\u{9}' <= c <= '\u{d}') || c == ' ' || c == '\u{85}' || c == '\u{a0}' || c == '\u{1680}' || ('\u{2000}'
        <= c <= '\u{200a}') || c == '\u{2028}' || c == '\u{2029}' || c == '\u{202f}' || c == '\u{205f}' || c
        == '\u{3000}'
}

/// Whether a character has the Unicode `White_Space` property.
pub fn white_space(c: char) -> (r: bool)
    ensures
        r == is_white_space(c),
{
    ('\u{9}' <= c && c <= '\u{d}') || c == ' ' || c == '\u{85}' || c == '\u{a0}' || c == '\u{1680}' || ('\u{2000}'
        <= c && c <= '\u{200a}') || c == '\u{2028}' || c == '\u{2029}' || c == '\u{202f}' || c == '\u{205f}'
        || c == '\u{3000}'
}

/// Number of leading whitespace characters.
pub open spec fn leading_ws(s: Seq<char>) -> int
    decreases s.len(),
{
    if s.len() > 0 && is_white_space(s[0]) {
        1 + leading_ws(s.drop_first())
    } else {
        0
    }
}

/// Number of trailing whitespace characters.
pub open spec fn trailing_ws(s: Seq<char>) -> int
    decreases s.len(),
{
    if s.len() > 0 && is_white_space(s.last()) {
        1 + trailing_ws(s.drop_last())
    } else {
        0
    }
}

/// The text without leading and trailing whitespace (`str::trim`).
pub open spec fn trim_spec(s: Seq<char>) -> Seq<char> {
    let t = s.skip(leading_ws(s));
    t.take(t.len() - trailing_ws(t))
}

proof fn lemma_leading_ws(s: Seq<char>, i: int)
    requires
        0 <= i <= s.len(),
        forall|k: int| 0 <= k < i ==> is_white_space(#[trigger] s[k]),
        i == s.len() || !is_white_space(s[i]),
    ensures
        leading_ws(s) == i,
    decreases s.len(),
{
    if i > 0 {
        assert forall|k: int| 0 <= k < i - 1 implies is_white_space(#[trigger] s.drop_first()[k]) by {
            assert(s.drop_first()[k] == s[k + 1]);
        }
        lemma_leading_ws(s.drop_first(), i - 1);
    }
}

proof fn lemma_trailing_ws(s: Seq<char>, j: int)
    requires
        0 <= j <= s.len(),
        forall|k: int| j <= k < s.len() ==> is_white_space(#[trigger] s[k]),
        j == 0 || !is_white_space(s[j - 1]),
    ensures
        trailing_ws(s) == s.len() - j,
    decreases s.len(),
{
    if j < s.len() {
        assert forall|k: int| j <= k < s.drop_last().len() implies is_white_space(#[trigger] s.drop_last()[k]) by {
            assert(s.drop_last()[k] == s[k]);
        }
        lemma_trailing_ws(s.drop_last(), j);
    }
}

/// The text without leading and trailing whitespace.
pub fn trim(s: &str) -> (r: &str)
    ensures
        r@ == trim_spec(s@),
{
    let n = s.unicode_len();
    let mut i: usize = 0;
    while i < n && white_space(s.get_char(i))
        invariant
            n == s@.len(),
            i <= n,
            forall|k: int| 0 <= k < i ==> is_white_space(#[trigger] s@[k]),
        decreases n - i,
    {
        i = i + 1;
    }
    proof {
        lemma_leading_ws(s@, i as int);
    }
    let mut j: usize = n;
    while j > i && white_space(s.get_char(j - 1))
        invariant
            n == s@.len(),
            i <= j <= n,
            forall|k: int| j <= k < n ==> is_white_space(#[trigger] s@[k]),
        decreases j,
    {
        j = j - 1;
    }
    proof {
        let t = s@.skip(i as int);
        assert forall|k: int| j - i <= k < t.len() implies is_white_space(#[trigger] t[k]) by {
            assert(t[k] == s@[k + i]);
        }
        if j > i {
            assert(t[j - i - 1] == s@[j - 1]);
        }
        lemma_trailing_ws(t, j - i);
        assert(t.take(t.len() - trailing_ws(t)) =~= s@.subrange(i as int, j as int));
    }
    s.substring_char(i, j)
}

} // verus!
