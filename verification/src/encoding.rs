//! Text and byte helpers: base64 encoding, media-type detection and the
//! string comparisons the parsers of this crate are built on.

use vstd::prelude::*;
use vstd::string::*;

verus! {

/// The standard base64 encoding (RFC 4648 alphabet, with `=` padding) of some bytes.
pub uninterp spec fn base64_standard(data: Seq<u8>) -> Seq<char>;

/// Length of the padded base64 encoding of `n` bytes.
pub open spec fn base64_encoded_len(n: nat) -> nat {
    if n % 3 == 0 { (n / 3) * 4 } else { (n / 3) * 4 + 4 }
}

/// Encodes bytes with `base64::engine::general_purpose::STANDARD` (`BASE64_STANDARD`).
///
/// Trusted: the result is the standard padded encoding of `data`, named
/// [`base64_standard`]; `Engine::encode` panics only when the encoded length
/// overflows `usize`, which the precondition rules out.
#[verifier::external_body]
pub(crate) fn base64_encode(data: &[u8]) -> (res: String)
    requires
        base64_encoded_len(data@.len()) <= usize::MAX,
    ensures
        res@ == base64_standard(data@),
{
    base64::Engine::encode(&base64::engine::general_purpose::STANDARD, data)
}

/// The media type that `file_format` infers from the leading bytes of some data.
pub uninterp spec fn detected_media_type(bytes: Seq<u8>) -> Seq<char>;

/// Infers a media type with `file_format::FileFormat::from_bytes(..).media_type()`.
///
/// Trusted: the result is the media type of the detected format, a function of the
/// bytes alone, named [`detected_media_type`]; detection reads from an in-memory
/// cursor and falls back to a default format instead of failing.
#[verifier::external_body]
pub(crate) fn detect_media_type(bytes: &[u8]) -> (res: String)
    ensures
        res@ == detected_media_type(bytes@),
{
    file_format::FileFormat::from_bytes(bytes).media_type().to_owned()
}

/// The Unicode lowercase mapping of a string, as `str::to_lowercase` computes it.
pub uninterp spec fn unicode_lowercase(s: Seq<char>) -> Seq<char>;

/// Whether every character of `s` is ASCII.
pub open spec fn all_ascii(s: Seq<char>) -> bool {
    forall|i: int| 0 <= i < s.len() ==> (s[i] as u32) < 128
}

/// ASCII lowercase of one character: `A`..`Z` become `a`..`z`, all else is kept.
pub open spec fn ascii_lower_char(c: char) -> char {
    if 'A' <= c && c <= 'Z' {
        ((c as u32) + 32) as char
    } else {
        c
    }
}

/// ASCII lowercase of a string, character by character.
pub open spec fn ascii_lowercase(s: Seq<char>) -> Seq<char> {
    Seq::new(s.len(), |i: int| ascii_lower_char(s[i]))
}

/// The lowercase of `s`: its ASCII letters lowered when it is all ASCII, and the
/// Unicode lowercase mapping otherwise.
pub open spec fn lowercase(s: Seq<char>) -> Seq<char> {
    if all_ascii(s) {
        ascii_lowercase(s)
    } else {
        unicode_lowercase(s)
    }
}

/// Lowercases a string with `str::to_lowercase`.
///
/// Trusted: the result is the Unicode lowercase mapping of `s`, named
/// [`unicode_lowercase`]; on an all-ASCII string that mapping changes exactly the
/// letters `A`..`Z` into `a`..`z` (the Unicode lowercase mapping of the ASCII range).
#[verifier::external_body]
pub(crate) fn to_lowercase(s: &str) -> (res: String)
    ensures
        res@ == unicode_lowercase(s@),
        all_ascii(s@) ==> res@ == ascii_lowercase(s@),
{
    s.to_lowercase()
}

/// Whether two string slices hold the same characters.
pub fn same_text(a: &str, b: &str) -> (res: bool)
    ensures
        res == (a@ == b@),
{
    let x = a.to_owned();
    let y = b.to_owned();
    x == y
}

/// Whether `p` is a prefix of `s`.
pub open spec fn has_prefix(s: Seq<char>, p: Seq<char>) -> bool {
    p.len() <= s.len() && s.subrange(0, p.len() as int) == p
}

/// Whether `prefix` is a prefix of `s`, compared character by character.
pub(crate) fn starts_with(s: &str, prefix: &str) -> (res: bool)
    ensures
        res == has_prefix(s@, prefix@),
{
    let n = prefix.unicode_len();
    let m = s.unicode_len();
    if n > m {
        return false;
    }
    let mut i: usize = 0;
    while i < n
        invariant
            n == prefix@.len(),
            m == s@.len(),
            n <= m,
            i <= n,
            forall|j: int| 0 <= j < i ==> s@[j] == prefix@[j],
        decreases n - i,
    {
        if s.get_char(i) != prefix.get_char(i) {
            proof {
                assert(s@.subrange(0, n as int)[i as int] != prefix@[i as int]);
            }
            return false;
        }
        i = i + 1;
    }
    proof {
        assert(s@.subrange(0, n as int) =~= prefix@);
    }
    true
}

/// The position of the first `c` in `s`, or the length of `s` when there is none.
pub open spec fn char_index(s: Seq<char>, c: char) -> int
    decreases s.len(),
{
    if s.len() == 0 {
        0
    } else if s[0] == c {
        0
    } else {
        1 + char_index(s.drop_first(), c)
    }
}

/// Splits at the first `c` with `str::split_once`.
///
/// Trusted: as the method's documentation says, the result is `None` when `s` holds
/// no `c`, and otherwise the text before and the text after the first `c`.
#[verifier::external_body]
pub(crate) fn split_once_char(s: &str, c: char) -> (res: Option<(String, String)>)
    ensures
        res is None <==> !s@.contains(c),
        res matches Some(parts) ==> parts.0@ == s@.subrange(0, char_index(s@, c))
            && parts.1@ == s@.subrange(char_index(s@, c) + 1, s@.len() as int),
{
    match s.split_once(c) {
        Some((a, b)) => Some((a.to_owned(), b.to_owned())),
        None => None,
    }
}

/// `s` with every match of the non-empty pattern `p`, taken from left to right
/// without overlap, replaced by `r`.
pub open spec fn replaced_all(s: Seq<char>, p: Seq<char>, r: Seq<char>) -> Seq<char>
    recommends
        p.len() > 0,
    decreases s.len(),
{
    if s.len() == 0 || p.len() == 0 {
        s
    } else if has_prefix(s, p) {
        r + replaced_all(s.subrange(p.len() as int, s.len() as int), p, r)
    } else {
        seq![s[0]] + replaced_all(s.drop_first(), p, r)
    }
}

/// Replaces every match of a pattern with `str::replace`.
///
/// Trusted: the result is `s` with the matches of `from`, found from left to right
/// without overlap, replaced by `to`, as the method's documentation says.
#[verifier::external_body]
pub(crate) fn replace_all(s: &str, from: &str, to: &str) -> (res: String)
    requires
        from@.len() > 0,
    ensures
        res@ == replaced_all(s@, from@, to@),
{
    s.replace(from, to)
}

/// `s` with its first match of `p` replaced by `r` (unchanged when there is none).
pub open spec fn replaced_first(s: Seq<char>, p: Seq<char>, r: Seq<char>) -> Seq<char>
    decreases s.len(),
{
    if has_prefix(s, p) {
        r + s.subrange(p.len() as int, s.len() as int)
    } else if s.len() == 0 {
        s
    } else {
        seq![s[0]] + replaced_first(s.drop_first(), p, r)
    }
}

/// Replaces the first match of a pattern with `str::replacen(.., 1)`.
///
/// Trusted: the result is `s` with its first match of `from` replaced by `to`, as the
/// method's documentation says.
#[verifier::external_body]
pub(crate) fn replace_first(s: &str, from: &str, to: &str) -> (res: String)
    ensures
        res@ == replaced_first(s@, from@, to@),
{
    s.replacen(from, to, 1)
}

/// Whether `c` has the Unicode `White_Space` property.
pub open spec fn is_white_space(c: char) -> bool {
    let u = c as u32;
    ||| 0x9 <= u <= 0xD
    ||| u == 0x20
    ||| u == 0x85
    ||| u == 0xA0
    ||| u == 0x1680
    ||| 0x2000 <= u <= 0x200A
    ||| u == 0x2028
    ||| u == 0x2029
    ||| u == 0x202F
    ||| u == 0x205F
    ||| u == 0x3000
}

/// `s` without its leading white space.
pub open spec fn trimmed_start(s: Seq<char>) -> Seq<char>
    decreases s.len(),
{
    if s.len() > 0 && is_white_space(s[0]) {
        trimmed_start(s.drop_first())
    } else {
        s
    }
}

/// `s` without its trailing white space.
pub open spec fn trimmed_end(s: Seq<char>) -> Seq<char>
    decreases s.len(),
{
    if s.len() > 0 && is_white_space(s.last()) {
        trimmed_end(s.drop_last())
    } else {
        s
    }
}

/// `s` without its leading and trailing white space.
pub open spec fn trimmed(s: Seq<char>) -> Seq<char> {
    trimmed_end(trimmed_start(s))
}

/// Trims white space with `str::trim`.
///
/// Trusted: as the method's documentation says, the result is `s` without its
/// leading and trailing characters that have the Unicode `White_Space` property.
#[verifier::external_body]
pub(crate) fn trim(s: &str) -> (res: String)
    ensures
        res@ == trimmed(s@),
{
    s.trim().to_owned()
}

/// No match of `p` starts anywhere in `s`.
pub open spec fn has_no_match(s: Seq<char>, p: Seq<char>) -> bool {
    forall|i: int| 0 <= i < s.len() ==> !has_prefix(#[trigger] s.subrange(i, s.len() as int), p)
}

/// Replacing a pattern that does not occur leaves a string as it is.
pub proof fn lemma_replaced_all_absent(s: Seq<char>, p: Seq<char>, r: Seq<char>)
    requires
        p.len() > 0,
        has_no_match(s, p),
    ensures
        replaced_all(s, p, r) == s,
    decreases s.len(),
{
    if s.len() > 0 {
        let t = s.drop_first();
        assert(s.subrange(0, s.len() as int) =~= s);
        assert forall|i: int| 0 <= i < t.len() implies !has_prefix(
            #[trigger] t.subrange(i, t.len() as int),
            p,
        ) by {
            assert(t.subrange(i, t.len() as int) =~= s.subrange(i + 1, s.len() as int));
        }
        lemma_replaced_all_absent(t, p, r);
        assert(seq![s[0]] + t =~= s);
    }
}

/// The first `c` of `a + b`, when `a` holds none, is the first `c` of `b`.
pub proof fn lemma_char_index_concat(a: Seq<char>, b: Seq<char>, c: char)
    requires
        !a.contains(c),
    ensures
        char_index(a + b, c) == a.len() + char_index(b, c),
    decreases a.len(),
{
    if a.len() > 0 {
        assert((a + b)[0] == a[0]);
        assert(a[0] != c);
        assert((a + b).drop_first() =~= a.drop_first() + b);
        assert forall|i: int| 0 <= i < a.drop_first().len() implies a.drop_first()[i] != c by {
            assert(a.drop_first()[i] == a[i + 1]);
        }
        lemma_char_index_concat(a.drop_first(), b, c);
    } else {
        assert(a + b =~= b);
    }
}

/// The first `c` of a string that starts with `c`.
pub proof fn lemma_char_index_first(b: Seq<char>, c: char)
    requires
        b.len() > 0,
        b[0] == c,
    ensures
        char_index(b, c) == 0,
{
}

/// A string that neither starts nor ends with white space is its own trim.
pub proof fn lemma_trimmed_clean(s: Seq<char>)
    requires
        s.len() > 0 ==> !is_white_space(s[0]) && !is_white_space(s.last()),
    ensures
        trimmed(s) == s,
{
}


} // verus!
