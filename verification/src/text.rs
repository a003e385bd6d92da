//! Text primitives used by the configuration parser and the device scanner.
//!
//! Each executable function here is a thin wrapper around one function of
//! std's `str` or `u16` API, whose behaviour Verus does not know by itself.
//! The contracts restate what std's documentation promises.
use vstd::prelude::*;

verus! {

/// The Unicode `White_Space` property, which `str::trim` and
/// `char::is_whitespace` use.
pub open spec fn is_white_space(c: char) -> bool {
    let n = c as int;
    ||| 0x9 <= n <= 0xd
    ||| n == 0x20
    ||| n == 0x85
    ||| n == 0xa0
    ||| n == 0x1680
    ||| 0x2000 <= n <= 0x200a
    ||| n == 0x2028
    ||| n == 0x2029
    ||| n == 0x202f
    ||| n == 0x205f
    ||| n == 0x3000
}

/// `s` with its leading white space removed.
pub open spec fn trim_start_spec(s: Seq<char>) -> Seq<char>
    decreases s.len(),
{
    if s.len() > 0 && is_white_space(s[0]) {
        trim_start_spec(s.drop_first())
    } else {
        s
    }
}

/// `s` with its trailing white space removed.
pub open spec fn trim_end_spec(s: Seq<char>) -> Seq<char>
    decreases s.len(),
{
    if s.len() > 0 && is_white_space(s.last()) {
        trim_end_spec(s.drop_last())
    } else {
        s
    }
}

/// `s` with white space removed at both ends.
pub open spec fn trim_spec(s: Seq<char>) -> Seq<char> {
    trim_end_spec(trim_start_spec(s))
}

/// The index of the first occurrence of `c` in `s`, if any.
pub open spec fn char_pos(s: Seq<char>, c: char) -> Option<nat>
    decreases s.len(),
{
    if s.len() == 0 {
        None
    } else if s[0] == c {
        Some(0)
    } else {
        match char_pos(s.drop_first(), c) {
            Some(i) => Some(i + 1),
            None => None,
        }
    }
}

/// The value of `c` as a digit in `radix`, or `None` when it is no such digit:
/// `0-9` stand for 0 to 9, `a-z` and `A-Z` for 10 to 35.
pub open spec fn digit_value(c: char, radix: int) -> Option<int> {
    let n = c as int;
    let d = if 0x30 <= n <= 0x39 {
        n - 0x30
    } else if 0x61 <= n <= 0x7a {
        n - 0x61 + 10
    } else if 0x41 <= n <= 0x5a {
        n - 0x41 + 10
    } else {
        radix
    };
    if d < radix {
        Some(d)
    } else {
        None
    }
}

/// Whether `s` is one or more digits of `radix`.
pub open spec fn all_digits(s: Seq<char>, radix: int) -> bool {
    &&& s.len() > 0
    &&& forall|i: int| 0 <= i < s.len() ==> #[trigger] digit_value(s[i], radix) is Some
}

/// The number that the digits `s` write in `radix`, most significant first.
pub open spec fn digits_value(s: Seq<char>, radix: int) -> int
    decreases s.len(),
{
    if s.len() == 0 {
        0
    } else {
        digits_value(s.drop_last(), radix) * radix + digit_value(s.last(), radix)->0
    }
}

/// The digits of an unsigned number in text: an optional leading `+` is
/// skipped.
pub open spec fn unsigned_digits(s: Seq<char>) -> Seq<char> {
    if s.len() > 0 && s[0] == '+' {
        s.drop_first()
    } else {
        s
    }
}

/// What `u16::from_str_radix(s, radix)` gives back: the number when `s` is an
/// optional `+` followed by one or more digits of `radix` whose value fits in
/// a `u16`, and nothing otherwise.
pub open spec fn parse_u16_spec(s: Seq<char>, radix: int) -> Option<u16> {
    let d = unsigned_digits(s);
    if all_digits(d, radix) && digits_value(d, radix) <= 0xffff {
        Some(digits_value(d, radix) as u16)
    } else {
        None
    }
}

/// Whether `p` is the beginning of `s`.
pub open spec fn has_prefix(s: Seq<char>, p: Seq<char>) -> bool {
    p.len() <= s.len() && s.subrange(0, p.len() as int) == p
}

/// What `str::to_lowercase` gives back for a text: its lowercase form by the
/// Unicode character database, where a character may map to several and a
/// capital sigma's form depends on the characters around it.
pub uninterp spec fn str_lowercase(s: Seq<char>) -> Seq<char>;

/// Whether every character of `s` is ASCII.
pub open spec fn all_ascii(s: Seq<char>) -> bool {
    forall|i: int| 0 <= i < s.len() ==> (#[trigger] s[i]) as int <= 0x7f
}

/// The ASCII lowercase of a character: `A` to `Z` become `a` to `z`, every
/// other character stays.
pub open spec fn ascii_lower(c: char) -> char {
    if 0x41 <= c as int <= 0x5a {
        ((c as int) + 0x20) as char
    } else {
        c
    }
}

/// The ASCII lowercase of a text, character by character.
pub open spec fn ascii_lower_text(s: Seq<char>) -> Seq<char> {
    s.map_values(|c: char| ascii_lower(c))
}

#[verifier::external_type_specification]
#[verifier::external_body]
pub struct ExParseIntError(std::num::ParseIntError);

/// `str::trim`: removes leading and trailing characters with the Unicode
/// `White_Space` property.
#[verifier::external_body]
pub(crate) fn str_trim(s: &str) -> (r: &str)
    ensures
        r@ == trim_spec(s@),
{
    s.trim()
}

/// `str::split_once` with a `char` pattern: splits `s` around the first
/// occurrence of `c`, and gives nothing when `c` does not occur.
#[verifier::external_body]
pub(crate) fn str_split_once<'a>(s: &'a str, c: char) -> (r: Option<(&'a str, &'a str)>)
    ensures
        match char_pos(s@, c) {
            None => r is None,
            Some(i) => r matches Some((a, b)) && a@ == s@.subrange(0, i as int) && b@ == s@.subrange(
                i as int + 1,
                s@.len() as int,
            ),
        },
{
    s.split_once(c)
}

/// `str::strip_prefix` with a `&str` pattern: what follows `p` when `s`
/// begins with `p`, and nothing otherwise.
#[verifier::external_body]
pub(crate) fn str_strip_prefix<'a>(s: &'a str, p: &str) -> (r: Option<&'a str>)
    ensures
        match r {
            Some(rest) => has_prefix(s@, p@) && rest@ == s@.skip(p@.len() as int),
            None => !has_prefix(s@, p@),
        },
{
    s.strip_prefix(p)
}

/// `str::starts_with` with a `&str` pattern.
#[verifier::external_body]
pub(crate) fn str_starts_with(s: &str, p: &str) -> (r: bool)
    ensures
        r == has_prefix(s@, p@),
{
    s.starts_with(p)
}

/// `str::to_lowercase`; its result is named by `str_lowercase`. On an
/// ASCII text it is the ASCII lowercase, as `to_ascii_lowercase` documents.
#[verifier::external_body]
pub(crate) fn str_to_lowercase(s: &str) -> (r: String)
    ensures
        r@ == str_lowercase(s@),
        all_ascii(s@) ==> r@ == ascii_lower_text(s@),
{
    s.to_lowercase()
}

/// `u16::from_str_radix`: `Ok` exactly when the text is an optional `+`
/// followed by digits of the radix whose value fits in a `u16`; white space
/// anywhere is an error. It panics when the radix lies outside 2 to 36.
#[verifier::external_body]
pub(crate) fn u16_from_str_radix(s: &str, radix: u32) -> (r: Result<u16, std::num::ParseIntError>)
    requires
        2 <= radix <= 36,
    ensures
        match parse_u16_spec(s@, radix as int) {
            Some(v) => r == Ok::<u16, std::num::ParseIntError>(v),
            None => r is Err,
        },
{
    u16::from_str_radix(s, radix)
}

} // verus!

verus! {

/// Removing leading white space keeps a tail of the text, which is empty or
/// begins with a character that is not white space.
pub proof fn lemma_trim_start_shape(s: Seq<char>)
    ensures
        trim_start_spec(s).len() <= s.len(),
        trim_start_spec(s) == s.subrange(s.len() - trim_start_spec(s).len(), s.len() as int),
        trim_start_spec(s).len() == 0 || !is_white_space(trim_start_spec(s)[0]),
    decreases s.len(),
{
    if s.len() > 0 && is_white_space(s[0]) {
        lemma_trim_start_shape(s.drop_first());
        let t = trim_start_spec(s.drop_first());
        assert(s.drop_first().subrange(s.len() - 1 - t.len(), s.len() - 1) =~= s.subrange(
            s.len() - t.len(),
            s.len() as int,
        ));
    } else {
        assert(s.subrange(0, s.len() as int) =~= s);
    }
}

/// Removing trailing white space keeps a head of the text, which is empty
/// or ends with a character that is not white space.
pub proof fn lemma_trim_end_shape(s: Seq<char>)
    ensures
        trim_end_spec(s).len() <= s.len(),
        trim_end_spec(s) == s.subrange(0, trim_end_spec(s).len() as int),
        trim_end_spec(s).len() == 0 || !is_white_space(trim_end_spec(s).last()),
    decreases s.len(),
{
    if s.len() > 0 && is_white_space(s.last()) {
        lemma_trim_end_shape(s.drop_last());
        let t = trim_end_spec(s.drop_last());
        assert(s.drop_last().subrange(0, t.len() as int) =~= s.subrange(0, t.len() as int));
    } else {
        assert(s.subrange(0, s.len() as int) =~= s);
    }
}

/// A text that is empty or neither begins nor ends with white space is its
/// own trimmed form.
pub proof fn lemma_trim_fixed(s: Seq<char>)
    requires
        s.len() == 0 || (!is_white_space(s[0]) && !is_white_space(s.last())),
    ensures
        trim_spec(s) == s,
{
}

/// Trimming keeps a piece of the text: `trim_spec(s)` is `s` from some
/// position to some later one.
pub proof fn lemma_trim_is_piece(s: Seq<char>)
    ensures
        exists|a: int, b: int|
            0 <= a <= b <= s.len() && #[trigger] s.subrange(a, b) == trim_spec(s),
{
    lemma_trim_start_shape(s);
    let t = trim_start_spec(s);
    lemma_trim_end_shape(t);
    let u = trim_end_spec(t);
    let a = s.len() - t.len();
    assert(s.subrange(a, a + u.len()) =~= u);
}

/// A trimmed text is empty or neither begins nor ends with white space.
pub proof fn lemma_trim_ends(s: Seq<char>)
    ensures
        trim_spec(s).len() == 0 || (!is_white_space(trim_spec(s)[0]) && !is_white_space(
            trim_spec(s).last(),
        )),
{
    lemma_trim_start_shape(s);
    let t = trim_start_spec(s);
    lemma_trim_end_shape(t);
    let u = trim_end_spec(t);
    if u.len() > 0 {
        assert(u[0] == t[0]);
    }
}

/// Trimming twice is trimming once.
pub proof fn lemma_trim_idempotent(s: Seq<char>)
    ensures
        trim_spec(trim_spec(s)) == trim_spec(s),
{
    lemma_trim_ends(s);
    lemma_trim_fixed(trim_spec(s));
}

/// Where `c` first occurs: no earlier character is `c`; when it does not
/// occur, no character is.
pub proof fn lemma_char_pos(s: Seq<char>, c: char)
    ensures
        char_pos(s, c) matches Some(i) ==> i < s.len() && s[i as int] == c && forall|j: int|
            0 <= j < i ==> #[trigger] s[j] != c,
        char_pos(s, c) is None ==> forall|j: int| 0 <= j < s.len() ==> #[trigger] s[j] != c,
    decreases s.len(),
{
    if s.len() > 0 && s[0] != c {
        lemma_char_pos(s.drop_first(), c);
        assert forall|j: int| 1 <= j < s.len() implies s[j] == s.drop_first()[j - 1] by {}
        if let Some(i) = char_pos(s.drop_first(), c) {
            assert forall|j: int| 0 <= j < i + 1 implies #[trigger] s[j] != c by {
                if j > 0 {
                    assert(s[j] == s.drop_first()[j - 1]);
                }
            }
        } else {
            assert forall|j: int| 0 <= j < s.len() implies #[trigger] s[j] != c by {
                if j > 0 {
                    assert(s[j] == s.drop_first()[j - 1]);
                }
            }
        }
    }
}

/// A text in which no character is `c` has no first occurrence of `c`.
pub proof fn lemma_char_pos_none(s: Seq<char>, c: char)
    requires
        forall|j: int| 0 <= j < s.len() ==> #[trigger] s[j] != c,
    ensures
        char_pos(s, c) is None,
    decreases s.len(),
{
    if s.len() > 0 {
        assert forall|j: int| 0 <= j < s.drop_first().len() implies #[trigger] s.drop_first()[j]
            != c by {
            assert(s.drop_first()[j] == s[j + 1]);
        }
        lemma_char_pos_none(s.drop_first(), c);
    }
}

/// The ASCII lowercase of an ASCII text that is trimmed and holds no `=` is
/// trimmed, holds no `=`, and holds no capital ASCII letter.
pub proof fn lemma_ascii_lower_shape(k: Seq<char>)
    requires
        all_ascii(k),
        trim_spec(k) == k,
        char_pos(k, '=') is None,
    ensures
        trim_spec(ascii_lower_text(k)) == ascii_lower_text(k),
        char_pos(ascii_lower_text(k), '=') is None,
        forall|i: int|
            0 <= i < k.len() ==> !(0x41 <= #[trigger] ascii_lower_text(k)[i] as int <= 0x5a),
        all_ascii(ascii_lower_text(k)),
        ascii_lower_text(ascii_lower_text(k)) == ascii_lower_text(k),
{
    let l = ascii_lower_text(k);
    assert(ascii_lower_text(l) =~= l);
    lemma_trim_ends(k);
    lemma_char_pos(k, '=');
    assert forall|j: int| 0 <= j < l.len() implies #[trigger] l[j] != '=' by {
        assert(k[j] != '=');
    }
    lemma_char_pos_none(l, '=');
    if k.len() > 0 {
        assert(l[0] == ascii_lower(k[0]));
        assert(l.last() == ascii_lower(k.last()));
    }
    lemma_trim_fixed(l);
}

/// A piece of an ASCII text is ASCII.
pub proof fn lemma_ascii_piece(s: Seq<char>, a: int, b: int)
    requires
        all_ascii(s),
        0 <= a <= b <= s.len(),
    ensures
        all_ascii(s.subrange(a, b)),
{
    assert forall|i: int| 0 <= i < b - a implies (#[trigger] s.subrange(a, b)[i]) as int <= 0x7f by {
        assert(s.subrange(a, b)[i] == s[a + i]);
    }
}

/// Trimming an ASCII text gives an ASCII text.
pub proof fn lemma_ascii_trim(s: Seq<char>)
    requires
        all_ascii(s),
    ensures
        all_ascii(trim_spec(s)),
{
    lemma_trim_is_piece(s);
    let (a, b) = choose|a: int, b: int|
        0 <= a <= b <= s.len() && #[trigger] s.subrange(a, b) == trim_spec(s);
    lemma_ascii_piece(s, a, b);
}

} // verus!
