//! The few operations on text that the library takes from `std`, each behind
//! a wrapper whose contract states what `std` documents of it.
use vstd::prelude::*;

verus! {

/// `needle` occurs in `hay` starting at position `i`.
pub open spec fn occurs_at(hay: Seq<char>, needle: Seq<char>, i: int) -> bool {
    0 <= i && i + needle.len() <= hay.len() && hay.subrange(i, i + needle.len()) == needle
}

/// `needle` occurs in `hay` as a contiguous run of characters.
pub open spec fn has_substring(hay: Seq<char>, needle: Seq<char>) -> bool {
    exists|i: int| #[trigger] occurs_at(hay, needle, i)
}

/// What `str::to_lowercase` returns for a text: its Unicode lowercase mapping.
pub uninterp spec fn lowercase(s: Seq<char>) -> Seq<char>;

/// A character with the Unicode property White_Space, as `char::is_whitespace`
/// documents it.
pub open spec fn is_white_space(c: char) -> bool {
    let u = c as int;
    ||| 0x9 <= u <= 0xD
    ||| u == 0x20
    ||| u == 0x85
    ||| u == 0xA0
    ||| u == 0x1680
    ||| 0x2000 <= u <= 0x200A
    ||| u == 0x2028
    ||| u == 0x2029
    ||| u == 0x202F
    ||| u == 0x205F
    ||| u == 0x3000
}

/// The text without its leading white space.
pub open spec fn trim_start_whitespace(s: Seq<char>) -> Seq<char>
    decreases s.len(),
{
    if s.len() > 0 && is_white_space(s[0]) {
        trim_start_whitespace(s.drop_first())
    } else {
        s
    }
}

/// The text without its trailing white space.
pub open spec fn trim_end_whitespace(s: Seq<char>) -> Seq<char>
    decreases s.len(),
{
    if s.len() > 0 && is_white_space(s.last()) {
        trim_end_whitespace(s.drop_last())
    } else {
        s
    }
}

/// The text without its leading and trailing white space.
pub open spec fn trim_whitespace(s: Seq<char>) -> Seq<char> {
    trim_end_whitespace(trim_start_whitespace(s))
}

proof fn lemma_trim_start_is_suffix(s: Seq<char>)
    ensures
        exists|i: int|
            0 <= i <= s.len() && trim_start_whitespace(s) == #[trigger] s.subrange(i, s.len() as int)
                && (forall|t: int| 0 <= t < i ==> is_white_space(#[trigger] s[t])) && (i < s.len()
                ==> !is_white_space(s[i])),
    decreases s.len(),
{
    if s.len() > 0 && is_white_space(s[0]) {
        let t = s.drop_first();
        lemma_trim_start_is_suffix(t);
        let i = choose|i: int|
            0 <= i <= t.len() && trim_start_whitespace(t) == #[trigger] t.subrange(i, t.len() as int)
                && (forall|u: int| 0 <= u < i ==> is_white_space(#[trigger] t[u])) && (i < t.len()
                ==> !is_white_space(t[i]));
        assert(t.subrange(i, t.len() as int) =~= s.subrange(i + 1, s.len() as int));
        assert forall|u: int| 0 <= u < i + 1 implies is_white_space(#[trigger] s[u]) by {
            if u > 0 {
                assert(s[u] == t[u - 1]);
            }
        }
        assert(i + 1 < s.len() ==> s[i + 1] == t[i]);
    } else {
        assert(s.subrange(0, s.len() as int) =~= s);
    }
}

proof fn lemma_trim_end_is_prefix(s: Seq<char>)
    ensures
        exists|j: int|
            0 <= j <= s.len() && trim_end_whitespace(s) == #[trigger] s.subrange(0, j) && (forall|t: int|
                j <= t < s.len() ==> is_white_space(#[trigger] s[t])) && (j > 0 ==> !is_white_space(
                s[j - 1],
            )),
    decreases s.len(),
{
    if s.len() > 0 && is_white_space(s.last()) {
        let t = s.drop_last();
        lemma_trim_end_is_prefix(t);
        let j = choose|j: int|
            0 <= j <= t.len() && trim_end_whitespace(t) == #[trigger] t.subrange(0, j) && (forall|u: int|
                j <= u < t.len() ==> is_white_space(#[trigger] t[u])) && (j > 0 ==> !is_white_space(
                t[j - 1],
            ));
        assert(t.subrange(0, j) =~= s.subrange(0, j));
        assert forall|u: int| j <= u < s.len() implies is_white_space(#[trigger] s[u]) by {
            if u < s.len() - 1 {
                assert(s[u] == t[u]);
            }
        }
        assert(j > 0 ==> s[j - 1] == t[j - 1]);
    } else {
        assert(s.subrange(0, s.len() as int) =~= s);
    }
}

/// `r` is `s` cut to the positions `i..j`, where only white space lies
/// before `i` and from `j` on, and a non-empty `r` starts and ends with a
/// character that is not white space.
pub open spec fn trims_to(s: Seq<char>, r: Seq<char>, i: int, j: int) -> bool {
    &&& 0 <= i <= j <= s.len()
    &&& r == s.subrange(i, j)
    &&& forall|t: int| 0 <= t < i ==> is_white_space(#[trigger] s[t])
    &&& forall|t: int| j <= t < s.len() ==> is_white_space(#[trigger] s[t])
    &&& i < j ==> !is_white_space(s[i]) && !is_white_space(s[j - 1])
}

/// Trimming cuts only white space, from both ends, and as much of it as
/// there is.
pub proof fn law_trim_cuts_only_white_space(s: Seq<char>)
    ensures
        exists|i: int, j: int| #[trigger] trims_to(s, trim_whitespace(s), i, j),
{
    lemma_trim_start_is_suffix(s);
    let i = choose|i: int|
        0 <= i <= s.len() && trim_start_whitespace(s) == #[trigger] s.subrange(i, s.len() as int)
            && (forall|t: int| 0 <= t < i ==> is_white_space(#[trigger] s[t])) && (i < s.len()
            ==> !is_white_space(s[i]));
    let t = trim_start_whitespace(s);
    lemma_trim_end_is_prefix(t);
    let j = choose|j: int|
        0 <= j <= t.len() && trim_end_whitespace(t) == #[trigger] t.subrange(0, j) && (forall|u: int|
            j <= u < t.len() ==> is_white_space(#[trigger] t[u])) && (j > 0 ==> !is_white_space(
            t[j - 1],
        ));
    assert(t.subrange(0, j) =~= s.subrange(i, i + j));
    assert forall|u: int| i + j <= u < s.len() implies is_white_space(#[trigger] s[u]) by {
        assert(s[u] == t[u - i]);
    }
    if j > 0 {
        assert(s[i] == t[0]);
        assert(s[i + j - 1] == t[j - 1]);
    }
    assert(trims_to(s, trim_whitespace(s), i, i + j));
}

/// Trimming keeps a contiguous part of the text: every text holds its
/// trimmed self.
pub proof fn lemma_text_holds_its_trim(s: Seq<char>)
    ensures
        has_substring(s, trim_whitespace(s)),
{
    law_trim_cuts_only_white_space(s);
    let (i, j) = choose|i: int, j: int| #[trigger] trims_to(s, trim_whitespace(s), i, j);
    assert(occurs_at(s, trim_whitespace(s), i));
}

/// `str::contains` with a `&str` pattern: whether `needle` matches a sub-slice
/// of `hay`.
#[verifier::external_body]
pub(crate) fn str_contains(hay: &str, needle: &str) -> (found: bool)
    ensures
        found == has_substring(hay@, needle@),
{
    hay.contains(needle)
}

/// `str::to_lowercase`: the lowercase equivalent of the text, a function of
/// the text alone (left unstated beyond that name).
#[verifier::external_body]
pub(crate) fn str_to_lowercase(s: &str) -> (lower: String)
    ensures
        lower@ == lowercase(s@),
{
    s.to_lowercase()
}

/// `str::trim`: the text with leading and trailing white space removed,
/// white space being the characters with the Unicode property White_Space.
#[verifier::external_body]
pub(crate) fn str_trim<'a>(s: &'a str) -> (trimmed: &'a str)
    ensures
        trimmed@ == trim_whitespace(s@),
{
    s.trim()
}

/// `String::from_utf8`, with the error dropped: the text that the bytes
/// encode, where they are valid UTF-8.
#[verifier::external_body]
pub(crate) fn string_from_utf8(bytes: Vec<u8>) -> (text: Option<String>)
    ensures
        text is Some <==> vstd::utf8::valid_utf8(bytes@),
        text matches Some(t) ==> t@ == vstd::utf8::decode_utf8(bytes@),
{
    String::from_utf8(bytes).ok()
}

/// `String::push`: appends one character.
#[verifier::external_body]
pub(crate) fn string_push(s: &mut String, c: char)
    ensures
        final(s)@ == old(s)@.push(c),
{
    s.push(c)
}

/// From position `i` of `hay` on, the characters are those of `needle`,
/// one by one.
pub open spec fn spells_at(hay: Seq<char>, needle: Seq<char>, i: int) -> bool {
    0 <= i && i + needle.len() <= hay.len() && forall|j: int|
        0 <= j < needle.len() ==> #[trigger] hay[i + j] == needle[j]
}

/// `needle` occurs in `hay` exactly when, from some position of `hay` on,
/// the characters of `hay` are those of `needle`, one by one.
pub proof fn law_substring_is_an_occurrence(hay: Seq<char>, needle: Seq<char>)
    ensures
        has_substring(hay, needle) <==> exists|i: int| #[trigger] spells_at(hay, needle, i),
{
    if has_substring(hay, needle) {
        let i = choose|i: int| #[trigger] occurs_at(hay, needle, i);
        assert forall|j: int| 0 <= j < needle.len() implies #[trigger] hay[i + j] == needle[j] by {
            assert(hay.subrange(i, i + needle.len())[j] == needle[j]);
        }
        assert(spells_at(hay, needle, i));
    }
    if exists|i: int| #[trigger] spells_at(hay, needle, i) {
        let i = choose|i: int| #[trigger] spells_at(hay, needle, i);
        assert forall|j: int| 0 <= j < needle.len() implies hay.subrange(i, i + needle.len())[j] == needle[j] by {
            assert(hay[i + j] == needle[j]);
        }
        assert(hay.subrange(i, i + needle.len()) =~= needle);
        assert(occurs_at(hay, needle, i));
    }
}

} // verus!
