//! Text, as the other modules need it: numbers written in decimal, comparison
//! and search, words between white space, fields of a fixed width, and lists
//! joined by a separator. Every contract speaks of the characters of a text, a
//! `Seq<char>`.
use vstd::prelude::*;
use vstd::string::{StrSliceExecFns, StringExecFns};
use itertools::Itertools;

verus! {

/// The character that writes the digit `d`, for `d` below ten.
pub open spec fn digit_char(d: nat) -> char {
    if d == 0 {
        '0'
    } else if d == 1 {
        '1'
    } else if d == 2 {
        '2'
    } else if d == 3 {
        '3'
    } else if d == 4 {
        '4'
    } else if d == 5 {
        '5'
    } else if d == 6 {
        '6'
    } else if d == 7 {
        '7'
    } else if d == 8 {
        '8'
    } else {
        '9'
    }
}

/// The decimal numeral of `n`: no sign, no leading zero, `"0"` for zero.
pub open spec fn decimal_text(n: nat) -> Seq<char>
    decreases n,
{
    if n < 10 {
        seq![digit_char(n)]
    } else {
        decimal_text(n / 10).push(digit_char(n % 10))
    }
}

/// The ten digits, in rising order.
const DIGITS: &'static str = "0123456789";

fn digit_str(d: u64) -> (s: &'static str)
    requires
        d < 10,
    ensures
        s@ == seq![digit_char(d as nat)],
{
    proof {
        reveal_strlit("0123456789");
    }
    let s = DIGITS.substring_char(d as usize, d as usize + 1);
    assert(s@ =~= seq![digit_char(d as nat)]);
    s
}

/// Writes `n` in decimal.
pub fn decimal(n: u64) -> (text: String)
    ensures
        text@ == decimal_text(n as nat),
    decreases n,
{
    if n < 10 {
        String::from_str(digit_str(n))
    } else {
        let mut text = decimal(n / 10);
        text.append(digit_str(n % 10));
        assert(text@ =~= decimal_text((n / 10) as nat).push(digit_char((n % 10) as nat)));
        text
    }
}

/// Whether two pieces of text hold the same characters.
pub fn same_text(a: &str, b: &str) -> (same: bool)
    ensures
        same == (a@ == b@),
{
    String::from_str(a) == String::from_str(b)
}

/// The characters of `text`, one by one.
pub fn to_chars(text: &str) -> (chars: Vec<char>)
    ensures
        chars@ == text@,
{
    let mut chars: Vec<char> = Vec::new();
    for c in it: text.chars()
        invariant
            it.seq() == text@,
            chars@ == it.seq().take(it.index() as int),
    {
        chars.push(c);
        assert(chars@ =~= it.seq().take(it.index() + 1));
    }
    assert(text@.take(text@.len() as int) =~= text@);
    chars
}

/// Whether `needle` stands in `haystack` from position `at` on.
pub open spec fn occurs_at(haystack: Seq<char>, needle: Seq<char>, at: int) -> bool {
    0 <= at && at + needle.len() <= haystack.len() && haystack.subrange(
        at,
        at + needle.len(),
    ) == needle
}

/// Whether `needle` stands somewhere in `haystack`.
pub open spec fn has_substring(haystack: Seq<char>, needle: Seq<char>) -> bool {
    exists|at: int| occurs_at(haystack, needle, at)
}

fn matches_at(haystack: &Vec<char>, needle: &Vec<char>, at: usize) -> (found: bool)
    requires
        at + needle@.len() <= haystack@.len(),
    ensures
        found == occurs_at(haystack@, needle@, at as int),
{
    let mut k: usize = 0;
    while k < needle.len()
        invariant
            k <= needle.len(),
            at + needle.len() <= haystack.len(),
            forall|j: int| 0 <= j < k ==> haystack@[at + j] == needle@[j],
        decreases needle.len() - k,
    {
        if haystack[at + k] != needle[k] {
            assert(haystack@.subrange(at as int, at + needle@.len())[k as int] != needle@[k as int]);
            return false;
        }
        k = k + 1;
    }
    assert(haystack@.subrange(at as int, at + needle@.len()) =~= needle@);
    true
}

/// Whether `needle` stands somewhere in `haystack`.
pub fn contains_text(haystack: &str, needle: &str) -> (found: bool)
    ensures
        found == has_substring(haystack@, needle@),
{
    let hay = to_chars(haystack);
    let wanted = to_chars(needle);
    if wanted.len() > hay.len() {
        return false;
    }
    let last: usize = hay.len() - wanted.len();
    let mut at: usize = 0;
    loop
        invariant
            at <= last,
            last + wanted@.len() == hay@.len(),
            hay@ == haystack@,
            wanted@ == needle@,
            forall|j: int| 0 <= j < at ==> !occurs_at(hay@, wanted@, j),
        decreases last - at,
    {
        if matches_at(&hay, &wanted, at) {
            return true;
        }
        if at == last {
            return false;
        }
        at = at + 1;
    }
}

/// Whether `c` is white space: a character with the Unicode property
/// `White_Space`.
pub open spec fn is_white_space(c: char) -> bool {
    let code = c as u32;
    ||| 0x09 <= code <= 0x0D
    ||| code == 0x20
    ||| code == 0x85
    ||| code == 0xA0
    ||| code == 0x1680
    ||| 0x2000 <= code <= 0x200A
    ||| code == 0x2028
    ||| code == 0x2029
    ||| code == 0x202F
    ||| code == 0x205F
    ||| code == 0x3000
}

/// Whether `c` is white space.
pub fn is_whitespace(c: char) -> (white: bool)
    ensures
        white == is_white_space(c),
{
    let code: u32 = c as u32;
    (0x09 <= code && code <= 0x0D) || code == 0x20 || code == 0x85 || code == 0xA0 || code
        == 0x1680 || (0x2000 <= code && code <= 0x200A) || code == 0x2028 || code == 0x2029
        || code == 0x202F || code == 0x205F || code == 0x3000
}

/// The first place at or after `from` that holds no white space, or the end of
/// `text`.
pub open spec fn skip_white(text: Seq<char>, from: int) -> int
    decreases text.len() - from,
{
    if 0 <= from < text.len() && is_white_space(text[from]) {
        skip_white(text, from + 1)
    } else {
        from
    }
}

/// The first place at or after `from` that holds white space, or the end of
/// `text`.
pub open spec fn skip_word(text: Seq<char>, from: int) -> int
    decreases text.len() - from,
{
    if 0 <= from < text.len() && !is_white_space(text[from]) {
        skip_word(text, from + 1)
    } else {
        from
    }
}

/// Where the `n`-th word of `text` at or after `from` starts and ends, counting
/// from zero. A word is a longest run of characters that are not white space.
pub open spec fn nth_word_bounds(text: Seq<char>, from: int, n: nat) -> Option<(int, int)>
    decreases n,
{
    let start = skip_white(text, from);
    let end = skip_word(text, start);
    if start >= text.len() {
        None
    } else if n == 0 {
        Some((start, end))
    } else {
        nth_word_bounds(text, end, (n - 1) as nat)
    }
}

/// The `n`-th word of `text`, counting from zero.
pub open spec fn nth_word(text: Seq<char>, n: nat) -> Option<Seq<char>> {
    match nth_word_bounds(text, 0, n) {
        Some((start, end)) => Some(text.subrange(start, end)),
        None => None,
    }
}

fn skip_white_from(chars: &Vec<char>, from: usize) -> (at: usize)
    requires
        from <= chars@.len(),
    ensures
        at == skip_white(chars@, from as int),
        from <= at <= chars@.len(),
{
    let mut at: usize = from;
    while at < chars.len() && is_whitespace(chars[at])
        invariant
            from <= at <= chars@.len(),
            skip_white(chars@, from as int) == skip_white(chars@, at as int),
        decreases chars.len() - at,
    {
        at = at + 1;
    }
    at
}

fn skip_word_from(chars: &Vec<char>, from: usize) -> (at: usize)
    requires
        from <= chars@.len(),
    ensures
        at == skip_word(chars@, from as int),
        from <= at <= chars@.len(),
{
    let mut at: usize = from;
    while at < chars.len() && !is_whitespace(chars[at])
        invariant
            from <= at <= chars@.len(),
            skip_word(chars@, from as int) == skip_word(chars@, at as int),
        decreases chars.len() - at,
    {
        at = at + 1;
    }
    at
}

/// The second of the words of `text`, where it has two.
pub fn second_word(text: &str) -> (word: Option<String>)
    ensures
        match word {
            Some(found) => nth_word(text@, 1) == Some(found@),
            None => nth_word(text@, 1) is None,
        },
{
    let chars = to_chars(text);
    proof {
        reveal_with_fuel(nth_word_bounds, 2);
    }
    let first_start = skip_white_from(&chars, 0);
    if first_start >= chars.len() {
        return None;
    }
    let first_end = skip_word_from(&chars, first_start);
    let start = skip_white_from(&chars, first_end);
    if start >= chars.len() {
        return None;
    }
    let end = skip_word_from(&chars, start);
    Some(text.substring_char(start, end).to_owned())
}

/// The decimal numeral of `n`, with a minus sign before it where `n` is
/// negative.
pub open spec fn signed_decimal_text(n: int) -> Seq<char> {
    if n < 0 {
        "-"@ + decimal_text((-n) as nat)
    } else {
        decimal_text(n as nat)
    }
}

/// Writes `n` in decimal.
pub fn signed_decimal(n: i64) -> (text: String)
    ensures
        text@ == signed_decimal_text(n as int),
{
    if n < 0 {
        let magnitude: u64 = (-(n + 1)) as u64 + 1;
        let mut text = String::from_str("-");
        text.append(decimal(magnitude).as_str());
        text
    } else {
        decimal(n as u64)
    }
}

/// A run of `count` spaces.
pub open spec fn spaces(count: nat) -> Seq<char> {
    Seq::new(count, |i: int| ' ')
}

/// `text` in the middle of a field `width` characters wide: spaces fill the
/// field on both sides, the odd one going to the right. A text that is as long
/// as the field or longer stands as it is.
pub open spec fn centered_text(text: Seq<char>, width: nat) -> Seq<char> {
    if text.len() >= width {
        text
    } else {
        let left = ((width - text.len()) / 2) as nat;
        let right = (width - text.len() - left) as nat;
        spaces(left) + text + spaces(right)
    }
}

fn push_spaces(text: &mut String, count: usize)
    ensures
        final(text)@ == old(text)@ + spaces(count as nat),
{
    proof {
        reveal_strlit(" ");
    }
    let mut i: usize = 0;
    assert(text@ =~= old(text)@ + spaces(0));
    while i < count
        invariant
            i <= count,
            text@ == old(text)@ + spaces(i as nat),
            " "@ == seq![' '],
        decreases count - i,
    {
        text.append(" ");
        i = i + 1;
        assert(text@ =~= old(text)@ + spaces(i as nat));
    }
}

/// Sets `text` in the middle of a field `width` characters wide.
pub fn centered(text: &str, width: usize) -> (field: String)
    ensures
        field@ == centered_text(text@, width as nat),
{
    let length = text.unicode_len();
    if length >= width {
        text.to_owned()
    } else {
        let left: usize = (width - length) / 2;
        let right: usize = width - length - left;
        let mut field = String::new();
        push_spaces(&mut field, left);
        field.append(text);
        push_spaces(&mut field, right);
        assert(field@ =~= centered_text(text@, width as nat));
        field
    }
}

/// The texts of `texts` with `separator` between each two neighbours.
pub open spec fn joined_text(texts: Seq<Seq<char>>, separator: Seq<char>) -> Seq<char>
    decreases texts.len(),
{
    if texts.len() == 0 {
        Seq::empty()
    } else if texts.len() == 1 {
        texts[0]
    } else {
        joined_text(texts.drop_last(), separator) + separator + texts.last()
    }
}

/// What each of `texts` holds.
pub open spec fn texts_view(texts: Seq<String>) -> Seq<Seq<char>> {
    texts.map_values(|text: String| text@)
}

/// The names and values that each of `pairs` holds.
pub open spec fn pairs_view(pairs: Seq<(String, String)>) -> Seq<(Seq<char>, Seq<char>)> {
    pairs.map_values(|pair: (String, String)| (pair.0@, pair.1@))
}

/// Joins `texts` with `Itertools::join`. The contract is taken on trust from
/// `itertools`: the first text, then the separator and the next text for every
/// text that follows, and nothing for an empty list.
#[verifier::external_body]
pub(crate) fn join_texts(texts: &Vec<String>, separator: &str) -> (joined: String)
    ensures
        joined@ == joined_text(texts_view(texts@), separator@),
{
    texts.iter().join(separator)
}

} // verus!
