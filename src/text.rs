//! Character-level facts about strings, and the std string operations the
//! library relies on.

use vstd::prelude::*;

verus! {

/// Unicode `White_Space`, the set that `char::is_whitespace` and `str::trim` use.
pub open spec fn is_space(c: char) -> bool {
    ('\u{9}' <= c && c <= '\u{d}') || c == ' ' || c == '\u{85}' || c == '\u{a0}' || c
        == '\u{1680}' || ('\u{2000}' <= c && c <= '\u{200a}') || c == '\u{2028}' || c
        == '\u{2029}' || c == '\u{202f}' || c == '\u{205f}' || c == '\u{3000}'
}

/// `s` without its leading white space.
pub open spec fn strip_front(s: Seq<char>) -> Seq<char>
    decreases s.len(),
{
    if s.len() > 0 && is_space(s[0]) {
        strip_front(s.drop_first())
    } else {
        s
    }
}

/// `s` without its trailing white space.
pub open spec fn strip_back(s: Seq<char>) -> Seq<char>
    decreases s.len(),
{
    if s.len() > 0 && is_space(s.last()) {
        strip_back(s.drop_last())
    } else {
        s
    }
}

/// `s` without leading and trailing white space.
pub open spec fn trimmed(s: Seq<char>) -> Seq<char> {
    strip_back(strip_front(s))
}

proof fn lemma_strip_front_edge(s: Seq<char>)
    ensures
        strip_front(s).len() > 0 ==> !is_space(strip_front(s)[0]),
    decreases s.len(),
{
    if s.len() > 0 && is_space(s[0]) {
        lemma_strip_front_edge(s.drop_first());
    }
}

proof fn lemma_strip_back_edges(s: Seq<char>)
    ensures
        strip_back(s).len() <= s.len(),
        strip_back(s) == s.take(strip_back(s).len() as int),
        strip_back(s).len() > 0 ==> !is_space(strip_back(s).last()),
    decreases s.len(),
{
    if s.len() > 0 && is_space(s.last()) {
        lemma_strip_back_edges(s.drop_last());
        assert(s.drop_last().take(strip_back(s).len() as int) =~= s.take(
            strip_back(s).len() as int,
        ));
    } else {
        assert(s.take(s.len() as int) =~= s);
    }
}

/// A trimmed string that is not empty starts and ends with a character that
/// is not white space.
pub proof fn lemma_trimmed_edges(s: Seq<char>)
    ensures
        trimmed(s).len() > 0 ==> !is_space(trimmed(s)[0]) && !is_space(trimmed(s).last()),
{
    lemma_strip_front_edge(s);
    lemma_strip_back_edges(strip_front(s));
    if trimmed(s).len() > 0 {
        assert(trimmed(s)[0] == strip_front(s)[0]);
    }
}

/// The code of `c` after ASCII lower-casing.
pub open spec fn ascii_fold(c: char) -> u32 {
    if 'A' <= c && c <= 'Z' {
        (c as u32 + 32) as u32
    } else {
        c as u32
    }
}

/// The code of `c` after ASCII lower-casing.
pub(crate) fn fold_char(c: char) -> (r: u32)
    ensures
        r == ascii_fold(c),
{
    if 'A' <= c && c <= 'Z' {
        c as u32 + 32
    } else {
        c as u32
    }
}

/// `a` and `b` are equal once ASCII letters are lower-cased.
pub open spec fn fold_eq(a: Seq<char>, b: Seq<char>) -> bool {
    a.len() == b.len() && forall|i: int| 0 <= i < a.len() ==> ascii_fold(a[i]) == ascii_fold(b[i])
}

/// The characters that `String::from_utf16_lossy` decodes from `units`.
pub uninterp spec fn utf16_lossy(units: Seq<u16>) -> Seq<char>;

/// Relies on `str::trim`: the string slice without leading and trailing
/// `White_Space` characters.
#[verifier::external_body]
pub(crate) fn trim_text<'a>(s: &'a str) -> (r: &'a str)
    ensures
        r@ == trimmed(s@),
{
    s.trim()
}

/// Relies on `str::eq_ignore_ascii_case`: equality after ASCII lower-casing
/// of both sides.
#[verifier::external_body]
pub(crate) fn eq_ignoring_ascii_case(a: &str, b: &str) -> (r: bool)
    ensures
        r == fold_eq(a@, b@),
{
    a.eq_ignore_ascii_case(b)
}

/// Relies on `String::push`: appends one character.
#[verifier::external_body]
pub(crate) fn push_char(s: &mut String, c: char)
    ensures
        final(s)@ == old(s)@.push(c),
{
    s.push(c)
}

/// Relies on `String::from_utf16_lossy`: decodes UTF-16, replacing invalid
/// units; nothing decodes to nothing.
#[verifier::external_body]
fn decode_utf16_lossy(units: &[u16]) -> (r: String)
    ensures
        r@ == utf16_lossy(units@),
        units@.len() == 0 ==> r@.len() == 0,
{
    String::from_utf16_lossy(units)
}

/// The length of the text in a NUL-terminated wide buffer: the index of the
/// first NUL, or the whole buffer when there is none.
pub open spec fn wide_text_len(buffer: Seq<u16>) -> int {
    if exists|i: int| 0 <= i < buffer.len() && buffer[i] == 0 {
        choose|i: int|
            0 <= i < buffer.len() && buffer[i] == 0 && forall|j: int|
                0 <= j < i ==> buffer[j] != 0
    } else {
        buffer.len() as int
    }
}

/// Decodes the NUL-terminated UTF-16 text held in `buffer`.
pub fn wide_ptr_to_string(buffer: &[u16]) -> (r: String)
    ensures
        r@ == utf16_lossy(buffer@.take(wide_text_len(buffer@))),
{
    let n = buffer.len();
    let mut len: usize = 0;
    while len < n && buffer[len] != 0
        invariant
            len <= n,
            n == buffer@.len(),
            forall|j: int| 0 <= j < len ==> buffer@[j] != 0,
        decreases n - len,
    {
        len = len + 1;
    }
    proof {
        if len < n {
            assert(buffer@[len as int] == 0);
            let k = wide_text_len(buffer@);
            assert(0 <= k < n && buffer@[k] == 0 && forall|j: int| 0 <= j < k ==> buffer@[j] != 0);
            assert(k == len) by {
                if k < len {
                } else if k > len {
                }
            }
        }
    }
    let prefix = &buffer[0..len];
    assert(prefix@ =~= buffer@.take(len as int));
    decode_utf16_lossy(prefix)
}

} // verus!
