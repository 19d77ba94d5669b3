//! Text as sequences of characters: trimming, splitting, numbers.

use vstd::prelude::*;
use vstd::slice::slice_subrange;
use vstd::utf8::{decode_utf8, encode_scalar, encode_utf8, valid_utf8};

verus! {

/// `String::push` appends one character.
pub assume_specification[ String::push ](text: &mut String, c: char)
    ensures
        final(text)@ == old(text)@.push(c),
;

/// `String::from_utf8` accepts exactly the byte sequences that are valid UTF-8
/// and gives back the characters that they encode.
#[verifier::external_body]
fn string_from_utf8(bytes: Vec<u8>) -> (text: Option<String>)
    ensures
        text is Some <==> valid_utf8(bytes@),
        text is Some ==> text->Some_0@ == decode_utf8(bytes@),
{
    String::from_utf8(bytes).ok()
}

// ---------------------------------------------------------------------------
// Characters
// ---------------------------------------------------------------------------

/// The characters with the Unicode property White_Space.
pub open spec fn is_space(c: char) -> bool {
    let v = c as u32;
    ||| 0x9 <= v <= 0xd
    ||| v == 0x20
    ||| v == 0x85
    ||| v == 0xa0
    ||| v == 0x1680
    ||| 0x2000 <= v <= 0x200a
    ||| v == 0x2028
    ||| v == 0x2029
    ||| v == 0x202f
    ||| v == 0x205f
    ||| v == 0x3000
}

/// The control characters of Unicode, category Cc.
pub open spec fn is_control(c: char) -> bool {
    let v = c as u32;
    v <= 0x1f || 0x7f <= v <= 0x9f
}

pub open spec fn is_digit(c: char) -> bool {
    '0' <= c <= '9'
}

pub open spec fn is_ascii_alphanumeric(c: char) -> bool {
    is_digit(c) || 'a' <= c <= 'z' || 'A' <= c <= 'Z'
}

pub open spec fn is_hex_digit(c: char) -> bool {
    is_digit(c) || 'a' <= c <= 'f' || 'A' <= c <= 'F'
}

/// The upper case form of an ASCII letter; any other character is kept.
pub open spec fn ascii_upper(c: char) -> char {
    if 'a' <= c <= 'z' {
        ((c as u8) - 32) as u8 as char
    } else {
        c
    }
}

pub fn upper_char(c: char) -> (upper: char)
    ensures
        upper == ascii_upper(c),
{
    if 'a' <= c && c <= 'z' {
        ((c as u8) - 32) as char
    } else {
        c
    }
}

pub fn space_char(c: char) -> (r: bool)
    ensures
        r == is_space(c),
{
    let v: u32 = c as u32;
    (0x9 <= v && v <= 0xd) || v == 0x20 || v == 0x85 || v == 0xa0 || v == 0x1680 || (0x2000 <= v
        && v <= 0x200a) || v == 0x2028 || v == 0x2029 || v == 0x202f || v == 0x205f || v == 0x3000
}

pub fn control_char(c: char) -> (r: bool)
    ensures
        r == is_control(c),
{
    let v: u32 = c as u32;
    v <= 0x1f || (0x7f <= v && v <= 0x9f)
}

pub fn digit_char(c: char) -> (r: bool)
    ensures
        r == is_digit(c),
{
    '0' <= c && c <= '9'
}

pub fn alphanumeric_char(c: char) -> (r: bool)
    ensures
        r == is_ascii_alphanumeric(c),
{
    ('0' <= c && c <= '9') || ('a' <= c && c <= 'z') || ('A' <= c && c <= 'Z')
}

pub fn hex_digit_char(c: char) -> (r: bool)
    ensures
        r == is_hex_digit(c),
{
    ('0' <= c && c <= '9') || ('a' <= c && c <= 'f') || ('A' <= c && c <= 'F')
}

// ---------------------------------------------------------------------------
// Conversions
// ---------------------------------------------------------------------------

/// The number of bytes of a text in UTF-8.
pub open spec fn byte_len(s: Seq<char>) -> nat {
    encode_utf8(s).len()
}

/// The characters of a text.
pub fn chars_of(text: &str) -> (chars: Vec<char>)
    ensures
        chars@ == text@,
{
    let mut chars: Vec<char> = Vec::new();
    for c in it: text.chars()
        invariant
            chars@ == text@.take(it.index() as int),
            it.seq() == text@,
    {
        chars.push(c);
    }
    assert(text@.take(text@.len() as int) =~= text@);
    chars
}

/// The text that a sequence of characters spells.
pub fn string_of(chars: &[char]) -> (text: String)
    ensures
        text@ == chars@,
{
    let mut text = String::new();
    for i in 0..chars.len()
        invariant
            text@ == chars@.take(i as int),
    {
        text.push(chars[i]);
        assert(chars@.take(i as int).push(chars@[i as int]) =~= chars@.take(i + 1));
    }
    assert(chars@.take(chars@.len() as int) =~= chars@);
    text
}

/// Whether bytes are valid UTF-8, as `core::str::from_utf8` finds without a copy.
#[verifier::external_body]
pub(crate) fn is_utf8(bytes: &[u8]) -> (valid: bool)
    ensures
        valid == valid_utf8(bytes@),
{
    match core::str::from_utf8(bytes) {
        Ok(_) => true,
        Err(_) => false,
    }
}

/// The text that a byte sequence encodes, if it is valid UTF-8.
pub fn decode_text(bytes: &[u8]) -> (text: Option<String>)
    ensures
        text is Some <==> valid_utf8(bytes@),
        text is Some ==> text->Some_0@ == decode_utf8(bytes@),
{
    let mut copy: Vec<u8> = Vec::new();
    for i in 0..bytes.len()
        invariant
            copy@ == bytes@.take(i as int),
    {
        copy.push(bytes[i]);
        assert(bytes@.take(i as int).push(bytes@[i as int]) =~= bytes@.take(i + 1));
    }
    assert(bytes@.take(bytes@.len() as int) =~= bytes@);
    string_from_utf8(copy)
}

/// Whether two texts are the same.
pub fn same_text(left: &str, right: &str) -> (same: bool)
    ensures
        same == (left@ == right@),
{
    same_chars(chars_of(left).as_slice(), chars_of(right).as_slice())
}

/// Whether two sequences of characters are the same.
pub fn same_chars(left: &[char], right: &[char]) -> (same: bool)
    ensures
        same == (left@ == right@),
{
    if left.len() != right.len() {
        return false;
    }
    for i in 0..left.len()
        invariant
            left@.len() == right@.len(),
            left@.take(i as int) == right@.take(i as int),
    {
        if left[i] != right[i] {
            assert(left@[i as int] != right@[i as int]);
            return false;
        }
        assert(left@.take(i + 1) =~= left@.take(i as int).push(left@[i as int]));
        assert(right@.take(i + 1) =~= right@.take(i as int).push(right@[i as int]));
    }
    assert(left@.take(left@.len() as int) =~= left@);
    assert(right@.take(right@.len() as int) =~= right@);
    true
}

/// The views of a list of texts.
pub open spec fn texts(list: Seq<String>) -> Seq<Seq<char>> {
    list.map_values(|text: String| text@)
}

/// The views of a list of character sequences.
pub open spec fn pieces(list: Seq<Vec<char>>) -> Seq<Seq<char>> {
    list.map_values(|piece: Vec<char>| piece@)
}

// ---------------------------------------------------------------------------
// Trimming
// ---------------------------------------------------------------------------

pub open spec fn trim_start(s: Seq<char>) -> Seq<char>
    decreases s.len(),
{
    if s.len() > 0 && is_space(s.first()) {
        trim_start(s.skip(1))
    } else {
        s
    }
}

pub open spec fn trim_end(s: Seq<char>) -> Seq<char>
    decreases s.len(),
{
    if s.len() > 0 && is_space(s.last()) {
        trim_end(s.drop_last())
    } else {
        s
    }
}

/// A text without the white space at its two ends.
pub open spec fn trim(s: Seq<char>) -> Seq<char> {
    trim_end(trim_start(s))
}

/// A text that holds nothing but white space.
pub open spec fn is_blank(s: Seq<char>) -> bool {
    forall|i: int| 0 <= i < s.len() ==> is_space(#[trigger] s[i])
}

/// Trimming leaves nothing exactly of the blank texts.
pub proof fn trim_is_empty_iff_blank(s: Seq<char>)
    ensures
        trim(s).len() == 0 <==> is_blank(s),
{
    trim_start_facts(s);
    trim_end_blank(trim_start(s));
}

proof fn trim_start_facts(s: Seq<char>)
    ensures
        trim_start(s).len() <= s.len(),
        trim_start(s).len() > 0 ==> !is_space(trim_start(s).first()),
        trim_start(s) == s.skip(s.len() - trim_start(s).len()),
        is_blank(s) <==> trim_start(s).len() == 0,
    decreases s.len(),
{
    if s.len() > 0 && is_space(s.first()) {
        let rest = s.skip(1);
        trim_start_facts(rest);
        assert(rest.skip(rest.len() - trim_start(rest).len()) =~= s.skip(
            s.len() - trim_start(s).len(),
        ));
        assert forall|i: int| is_blank(rest) && 0 <= i < s.len() implies is_space(
            #[trigger] s[i],
        ) by {
            if i > 0 {
                assert(rest[i - 1] == s[i]);
            }
        }
        if is_blank(s) {
            assert forall|i: int| 0 <= i < rest.len() implies is_space(#[trigger] rest[i]) by {
                assert(rest[i] == s[i + 1]);
            }
        }
    } else {
        assert(s.skip(0) =~= s);
        if s.len() > 0 {
            assert(!is_space(s[0]));
        }
    }
}

proof fn trim_end_blank(s: Seq<char>)
    ensures
        trim_end(s).len() <= s.len(),
        trim_end(s) == s.take(trim_end(s).len() as int),
        is_blank(s) <==> trim_end(s).len() == 0,
    decreases s.len(),
{
    if s.len() > 0 && is_space(s.last()) {
        let rest = s.drop_last();
        trim_end_blank(rest);
        assert(rest.take(trim_end(rest).len() as int) =~= s.take(trim_end(s).len() as int));
        assert forall|i: int| is_blank(rest) && 0 <= i < s.len() implies is_space(
            #[trigger] s[i],
        ) by {
            if i < rest.len() {
                assert(rest[i] == s[i]);
            }
        }
        if is_blank(s) {
            assert forall|i: int| 0 <= i < rest.len() implies is_space(#[trigger] rest[i]) by {
                assert(rest[i] == s[i]);
            }
        }
    } else {
        assert(s.take(s.len() as int) =~= s);
        if s.len() > 0 {
            assert(!is_space(s[s.len() - 1]));
        }
    }
}

/// Drops the white space at the start.
pub fn trim_start_chars(s: &[char]) -> (trimmed: &[char])
    ensures
        trimmed@ == trim_start(s@),
{
    let mut from: usize = 0;
    assert(s@.skip(0) =~= s@);
    while from < s.len() && space_char(s[from])
        invariant
            from <= s@.len(),
            trim_start(s@.skip(from as int)) == trim_start(s@),
        decreases s@.len() - from,
    {
        assert(s@.skip(from as int).first() == s@[from as int]);
        assert(s@.skip(from as int).skip(1) =~= s@.skip(from + 1));
        from = from + 1;
    }
    assert(s@.subrange(from as int, s@.len() as int) =~= s@.skip(from as int));
    slice_subrange(s, from, s.len())
}

/// Drops the white space at the end.
pub fn trim_end_chars(s: &[char]) -> (trimmed: &[char])
    ensures
        trimmed@ == trim_end(s@),
{
    let mut until: usize = s.len();
    assert(s@.take(s@.len() as int) =~= s@);
    while until > 0 && space_char(s[until - 1])
        invariant
            until <= s@.len(),
            trim_end(s@.take(until as int)) == trim_end(s@),
        decreases until,
    {
        assert(s@.take(until as int).last() == s@[until - 1]);
        assert(s@.take(until as int).drop_last() =~= s@.take(until - 1));
        until = until - 1;
    }
    assert(s@.subrange(0, until as int) =~= s@.take(until as int));
    slice_subrange(s, 0, until)
}

/// Drops the white space at both ends.
pub fn trim_chars(s: &[char]) -> (trimmed: &[char])
    ensures
        trimmed@ == trim(s@),
{
    trim_end_chars(trim_start_chars(s))
}

/// Whether a text holds nothing but white space.
pub fn blank_text(text: &str) -> (blank: bool)
    ensures
        blank == is_blank(text@),
        blank == (trim(text@).len() == 0),
{
    let chars = chars_of(text);
    proof {
        trim_is_empty_iff_blank(text@);
    }
    trim_chars(chars.as_slice()).len() == 0
}

// ---------------------------------------------------------------------------
// Searching and splitting
// ---------------------------------------------------------------------------

/// The index of the first occurrence of a character, the length if there is none.
pub open spec fn first_index(s: Seq<char>, c: char) -> int
    decreases s.len(),
{
    if s.len() == 0 {
        0
    } else if s.first() == c {
        0
    } else {
        1 + first_index(s.skip(1), c)
    }
}

pub proof fn first_index_facts(s: Seq<char>, c: char)
    ensures
        0 <= first_index(s, c) <= s.len(),
        first_index(s, c) < s.len() ==> s[first_index(s, c)] == c,
        forall|i: int| 0 <= i < first_index(s, c) ==> s[i] != c,
        s.contains(c) <==> first_index(s, c) < s.len(),
    decreases s.len(),
{
    if s.len() > 0 && s.first() != c {
        let rest = s.skip(1);
        first_index_facts(rest, c);
        assert forall|i: int| 0 <= i < first_index(s, c) implies s[i] != c by {
            if i > 0 {
                assert(rest[i - 1] == s[i]);
            }
        }
        assert(first_index(s, c) < s.len() ==> rest[first_index(rest, c)] == s[first_index(s, c)]);
    }
    if first_index(s, c) < s.len() {
        assert(s[first_index(s, c)] == c);
    }
}

/// The first index is the one place with the character and none before it.
pub proof fn first_index_is(s: Seq<char>, c: char, at: int)
    requires
        0 <= at <= s.len(),
        forall|i: int| 0 <= i < at ==> s[i] != c,
        at < s.len() ==> s[at] == c,
    ensures
        first_index(s, c) == at,
{
    first_index_facts(s, c);
}

/// The index of the first occurrence of a character, the length if there is none.
pub fn find_char(s: &[char], c: char) -> (at: usize)
    ensures
        at == first_index(s@, c),
        at <= s@.len(),
{
    let mut at: usize = 0;
    while at < s.len() && s[at] != c
        invariant
            at <= s@.len(),
            forall|i: int| 0 <= i < at ==> s@[i] != c,
        decreases s@.len() - at,
    {
        at = at + 1;
    }
    proof {
        first_index_is(s@, c, at as int);
    }
    at
}

pub fn contains_char(s: &[char], c: char) -> (found: bool)
    ensures
        found == s@.contains(c),
{
    proof {
        first_index_facts(s@, c);
    }
    find_char(s, c) < s.len()
}

/// The parts of a text between the occurrences of a separator; a text without
/// the separator is its own only part.
pub open spec fn split(s: Seq<char>, separator: char) -> Seq<Seq<char>>
    decreases s.len(),
{
    let at = first_index(s, separator);
    if 0 <= at < s.len() {
        seq![s.take(at)] + split(s.skip(at + 1), separator)
    } else {
        seq![s]
    }
}

/// A copy of a slice of characters.
pub fn copy_chars(s: &[char]) -> (copy: Vec<char>)
    ensures
        copy@ == s@,
{
    let mut copy: Vec<char> = Vec::new();
    for i in 0..s.len()
        invariant
            copy@ == s@.take(i as int),
    {
        copy.push(s[i]);
        assert(s@.take(i as int).push(s@[i as int]) =~= s@.take(i + 1));
    }
    assert(s@.take(s@.len() as int) =~= s@);
    copy
}

/// Splits a text at each occurrence of a separator.
pub fn split_chars(s: &[char], separator: char) -> (parts: Vec<Vec<char>>)
    ensures
        pieces(parts@) == split(s@, separator),
        parts@.len() >= 1,
{
    let mut parts: Vec<Vec<char>> = Vec::new();
    let mut from: usize = 0;
    assert(s@.skip(0) =~= s@);
    assert(pieces(parts@) + split(s@, separator) =~= split(s@, separator));
    loop
        invariant
            from <= s@.len(),
            pieces(parts@) + split(s@.skip(from as int), separator) == split(s@, separator),
        decreases s@.len() - from,
    {
        let rest = slice_subrange(s, from, s.len());
        assert(rest@ =~= s@.skip(from as int));
        let at: usize = find_char(rest, separator);
        if at >= rest.len() {
            let ghost before = parts@;
            parts.push(copy_chars(rest));
            assert(pieces(parts@) =~= pieces(before) + seq![rest@]);
            return parts;
        }
        let ghost before = parts@;
        parts.push(copy_chars(slice_subrange(rest, 0, at)));
        proof {
            assert(rest@.subrange(0, at as int) =~= rest@.take(at as int));
            assert(s@.skip(from as int).skip(at + 1) =~= s@.skip(from + at + 1));
            assert(pieces(parts@) =~= pieces(before) + seq![rest@.take(at as int)]);
            assert(pieces(parts@) + split(s@.skip(from + at + 1), separator) =~= pieces(before)
                + (seq![rest@.take(at as int)] + split(rest@.skip(at + 1), separator)));
        }
        from = from + at + 1;
    }
}

/// A line without the carriage return at its end.
pub open spec fn without_cr(s: Seq<char>) -> Seq<char> {
    if s.len() > 0 && s.last() == '\r' {
        s.drop_last()
    } else {
        s
    }
}

/// The lines of a text: the parts between line feeds, without a last empty
/// part. A carriage return before a line feed is not part of the line.
pub open spec fn lines(s: Seq<char>) -> Seq<Seq<char>> {
    let parts = split(s, '\n');
    let ended = parts.drop_last().map_values(|part: Seq<char>| without_cr(part));
    if parts.last().len() == 0 {
        ended
    } else {
        ended.push(parts.last())
    }
}

/// Splits a text into its lines.
pub fn lines_of(s: &[char]) -> (out: Vec<Vec<char>>)
    ensures
        pieces(out@) == lines(s@),
{
    let parts = split_chars(s, '\n');
    let mut out: Vec<Vec<char>> = Vec::new();
    let count: usize = parts.len();
    let ghost ended = pieces(parts@).drop_last().map_values(|part: Seq<char>| without_cr(part));
    for i in 0..count
        invariant
            count == parts@.len(),
            ended == pieces(parts@).drop_last().map_values(|part: Seq<char>| without_cr(part)),
            i < count ==> pieces(out@) == ended.take(i as int),
            i == count ==> pieces(out@) == lines(s@),
            pieces(parts@) == split(s@, '\n'),
    {
        let part = &parts[i];
        let ghost before = out@;
        assert(pieces(parts@)[i as int] == part@);
        if i + 1 == count {
            assert(ended.take(i as int) =~= ended);
            if part.len() > 0 {
                out.push(copy_chars(part.as_slice()));
                assert(pieces(out@) =~= pieces(before).push(part@));
            }
        } else {
            let mut line = copy_chars(part.as_slice());
            if line.len() > 0 && line[line.len() - 1] == '\r' {
                let _ = line.pop();
            }
            assert(line@ =~= without_cr(part@));
            out.push(line);
            assert(pieces(out@) =~= pieces(before).push(without_cr(part@)));
            assert(ended.take(i + 1) =~= ended.take(i as int).push(ended[i as int]));
        }
    }
    out
}

pub open spec fn starts_with(s: Seq<char>, prefix: Seq<char>) -> bool {
    prefix.len() <= s.len() && s.take(prefix.len() as int) == prefix
}

pub open spec fn ends_with(s: Seq<char>, suffix: Seq<char>) -> bool {
    suffix.len() <= s.len() && s.skip(s.len() - suffix.len()) == suffix
}

pub fn has_prefix(s: &[char], prefix: &[char]) -> (r: bool)
    ensures
        r == starts_with(s@, prefix@),
{
    if prefix.len() > s.len() {
        return false;
    }
    let head = slice_subrange(s, 0, prefix.len());
    assert(head@ =~= s@.take(prefix@.len() as int));
    same_chars(head, prefix)
}

pub fn has_suffix(s: &[char], suffix: &[char]) -> (r: bool)
    ensures
        r == ends_with(s@, suffix@),
{
    if suffix.len() > s.len() {
        return false;
    }
    let tail = slice_subrange(s, s.len() - suffix.len(), s.len());
    assert(tail@ =~= s@.skip(s@.len() - suffix@.len()));
    same_chars(tail, suffix)
}

/// What follows a prefix, if the text starts with it.
pub open spec fn after_prefix(s: Seq<char>, prefix: Seq<char>) -> Option<Seq<char>> {
    if starts_with(s, prefix) {
        Some(s.skip(prefix.len() as int))
    } else {
        None
    }
}

pub fn strip_prefix<'a>(s: &'a [char], prefix: &str) -> (rest: Option<&'a [char]>)
    ensures
        rest is Some <==> after_prefix(s@, prefix@) is Some,
        rest is Some ==> rest->Some_0@ == after_prefix(s@, prefix@)->Some_0,
{
    let head = chars_of(prefix);
    if has_prefix(s, head.as_slice()) {
        let rest = slice_subrange(s, head.len(), s.len());
        assert(rest@ =~= s@.skip(prefix@.len() as int));
        Some(rest)
    } else {
        None
    }
}

/// Whether a character separates words: any white space, or only that of ASCII.
pub open spec fn is_gap(c: char, ascii: bool) -> bool {
    if ascii {
        c == ' ' || c == '\t' || c == '\n' || c == '\r' || c == '\u{c}'
    } else {
        is_space(c)
    }
}

fn gap_char(c: char, ascii: bool) -> (gap: bool)
    ensures
        gap == is_gap(c, ascii),
{
    if ascii {
        c == ' ' || c == '\t' || c == '\n' || c == '\r' || c == '\u{c}'
    } else {
        space_char(c)
    }
}

/// The number of characters before the first gap.
pub open spec fn word_length(s: Seq<char>, ascii: bool) -> int
    decreases s.len(),
{
    if s.len() == 0 || is_gap(s[0], ascii) {
        0
    } else {
        1 + word_length(s.skip(1), ascii)
    }
}

/// The words of a text, in order.
pub open spec fn words(s: Seq<char>, ascii: bool) -> Seq<Seq<char>>
    decreases s.len(),
{
    if s.len() == 0 {
        Seq::empty()
    } else if is_gap(s[0], ascii) {
        words(s.skip(1), ascii)
    } else {
        let length = word_length(s, ascii);
        if 0 < length <= s.len() {
            seq![s.take(length)] + words(s.skip(length), ascii)
        } else {
            Seq::empty()
        }
    }
}

proof fn word_length_is(s: Seq<char>, ascii: bool, length: int)
    requires
        0 <= length <= s.len(),
        forall|i: int| 0 <= i < length ==> !is_gap(#[trigger] s[i], ascii),
        length < s.len() ==> is_gap(s[length], ascii),
    ensures
        word_length(s, ascii) == length,
    decreases s.len(),
{
    if length > 0 {
        assert(!is_gap(s[0], ascii));
        let rest = s.skip(1);
        assert forall|i: int| 0 <= i < length - 1 implies !is_gap(#[trigger] rest[i], ascii) by {
            assert(rest[i] == s[i + 1]);
        }
        word_length_is(rest, ascii, length - 1);
    }
}

/// Splits a text into its words.
pub fn words_of(s: &[char], ascii: bool) -> (list: Vec<Vec<char>>)
    ensures
        pieces(list@) == words(s@, ascii),
{
    let mut list: Vec<Vec<char>> = Vec::new();
    let mut from: usize = 0;
    assert(s@.skip(0) =~= s@);
    assert(pieces(list@) + words(s@, ascii) =~= words(s@, ascii));
    while from < s.len()
        invariant
            from <= s@.len(),
            pieces(list@) + words(s@.skip(from as int), ascii) == words(s@, ascii),
        decreases s@.len() - from,
    {
        let ghost rest = s@.skip(from as int);
        assert(rest[0] == s@[from as int]);
        if gap_char(s[from], ascii) {
            assert(rest.skip(1) =~= s@.skip(from + 1));
            from = from + 1;
        } else {
            let mut end: usize = from + 1;
            while end < s.len() && !gap_char(s[end], ascii)
                invariant
                    from < end <= s@.len(),
                    forall|i: int| from <= i < end ==> !is_gap(#[trigger] s@[i], ascii),
                decreases s@.len() - end,
            {
                end = end + 1;
            }
            let ghost before = list@;
            let word = slice_subrange(s, from, end);
            proof {
                assert forall|i: int| 0 <= i < end - from implies !is_gap(
                    #[trigger] rest[i],
                    ascii,
                ) by {
                    assert(rest[i] == s@[from + i]);
                }
                if end < s@.len() {
                    assert(rest[end - from] == s@[end as int]);
                }
                word_length_is(rest, ascii, end - from);
                assert(word@ =~= rest.take(end - from));
                assert(rest.skip(end - from) =~= s@.skip(end as int));
            }
            list.push(copy_chars(word));
            proof {
                assert(pieces(list@) =~= pieces(before) + seq![rest.take(end - from)]);
                assert(pieces(list@) + words(s@.skip(end as int), ascii) =~= pieces(before) + (
                seq![rest.take(end - from)] + words(rest.skip(end - from), ascii)));
            }
            from = end;
        }
    }
    assert(s@.skip(from as int) =~= Seq::empty());
    assert(pieces(list@) + Seq::<Seq<char>>::empty() =~= pieces(list@));
    list
}

/// What comes before the first occurrence of a text, or all of it.
pub open spec fn before_part(s: Seq<char>, part: Seq<char>) -> Seq<char>
    decreases s.len(),
{
    if s.len() == 0 || starts_with(s, part) {
        Seq::empty()
    } else {
        seq![s[0]] + before_part(s.skip(1), part)
    }
}

pub fn cut_before(s: &[char], part: &str) -> (head: Vec<char>)
    ensures
        head@ == before_part(s@, part@),
{
    let letters = chars_of(part);
    let mut head: Vec<char> = Vec::new();
    let mut at: usize = 0;
    assert(s@.skip(0) =~= s@);
    assert(head@ + before_part(s@, part@) =~= before_part(s@, part@));
    while at < s.len()
        invariant
            at <= s@.len(),
            letters@ == part@,
            head@ + before_part(s@.skip(at as int), part@) == before_part(s@, part@),
        decreases s@.len() - at,
    {
        let rest = slice_subrange(s, at, s.len());
        assert(rest@ =~= s@.skip(at as int));
        if has_prefix(rest, letters.as_slice()) {
            assert(head@ + Seq::<char>::empty() =~= head@);
            return head;
        }
        let ghost before = head@;
        head.push(s[at]);
        proof {
            assert(rest@.skip(1) =~= s@.skip(at + 1));
            assert(head@ + before_part(s@.skip(at + 1), part@) =~= before + (seq![rest@[0]]
                + before_part(rest@.skip(1), part@)));
        }
        at = at + 1;
    }
    assert(s@.skip(at as int) =~= Seq::empty());
    assert(head@ + Seq::<char>::empty() =~= head@);
    head
}

/// The parts of a text between the first occurrences of a separator, at most so
/// many; the last part holds the rest.
pub open spec fn split_limited(s: Seq<char>, separator: char, limit: nat) -> Seq<Seq<char>>
    decreases limit,
{
    let at = first_index(s, separator);
    if limit > 1 && 0 <= at < s.len() {
        seq![s.take(at)] + split_limited(s.skip(at + 1), separator, (limit - 1) as nat)
    } else {
        seq![s]
    }
}

/// Splits a text at the first occurrences of a separator into at most so many
/// parts.
pub fn split_at_most(s: &[char], separator: char, limit: usize) -> (parts: Vec<Vec<char>>)
    requires
        limit > 0,
    ensures
        pieces(parts@) == split_limited(s@, separator, limit as nat),
        1 <= parts@.len() <= limit,
{
    let mut parts: Vec<Vec<char>> = Vec::new();
    let mut from: usize = 0;
    let mut left: usize = limit;
    assert(s@.skip(0) =~= s@);
    assert(pieces(parts@) + split_limited(s@, separator, limit as nat) =~= split_limited(
        s@,
        separator,
        limit as nat,
    ));
    while left > 1
        invariant
            from <= s@.len(),
            1 <= left <= limit,
            parts@.len() + left == limit,
            pieces(parts@) + split_limited(s@.skip(from as int), separator, left as nat)
                == split_limited(s@, separator, limit as nat),
        decreases left,
    {
        let rest = slice_subrange(s, from, s.len());
        assert(rest@ =~= s@.skip(from as int));
        let at: usize = find_char(rest, separator);
        let ghost before = parts@;
        if at >= rest.len() {
            parts.push(copy_chars(rest));
            assert(pieces(parts@) =~= pieces(before) + seq![rest@]);
            return parts;
        }
        parts.push(copy_chars(slice_subrange(rest, 0, at)));
        proof {
            assert(rest@.subrange(0, at as int) =~= rest@.take(at as int));
            assert(rest@.skip(at + 1) =~= s@.skip(from + at + 1));
            assert(pieces(parts@) =~= pieces(before) + seq![rest@.take(at as int)]);
            assert(pieces(parts@) + split_limited(
                s@.skip(from + at + 1),
                separator,
                (left - 1) as nat,
            ) =~= pieces(before) + (seq![rest@.take(at as int)] + split_limited(
                rest@.skip(at + 1),
                separator,
                (left - 1) as nat,
            )));
        }
        from = from + at + 1;
        left = left - 1;
    }
    let rest = slice_subrange(s, from, s.len());
    assert(rest@ =~= s@.skip(from as int));
    let ghost before = parts@;
    parts.push(copy_chars(rest));
    assert(pieces(parts@) =~= pieces(before) + seq![rest@]);
    parts
}

/// Whether a text occurs within another one.
pub open spec fn has_part(s: Seq<char>, part: Seq<char>) -> bool {
    exists|at: int| 0 <= at <= s.len() && starts_with(#[trigger] s.skip(at), part)
}

pub fn contains_text(s: &[char], part: &str) -> (found: bool)
    ensures
        found == has_part(s@, part@),
{
    let letters = chars_of(part);
    let mut at: usize = 0;
    loop
        invariant
            at <= s@.len(),
            letters@ == part@,
            forall|i: int| 0 <= i < at ==> !starts_with(#[trigger] s@.skip(i), part@),
        decreases s@.len() - at,
    {
        let rest = slice_subrange(s, at, s.len());
        assert(rest@ =~= s@.skip(at as int));
        if has_prefix(rest, letters.as_slice()) {
            return true;
        }
        if at == s.len() {
            return false;
        }
        at = at + 1;
    }
}

/// Whether a sequence of characters is a given text.
pub fn is_text(s: &[char], text: &str) -> (same: bool)
    ensures
        same == (s@ == text@),
{
    same_chars(s, chars_of(text).as_slice())
}

/// A text with every occurrence of a character replaced by another one.
pub open spec fn replaced(s: Seq<char>, from: char, to: char) -> Seq<char> {
    s.map_values(
        |c: char|
            if c == from {
                to
            } else {
                c
            },
    )
}

pub fn replace_char(s: &[char], from: char, to: char) -> (out: Vec<char>)
    ensures
        out@ == replaced(s@, from, to),
{
    let mut out: Vec<char> = Vec::new();
    for i in 0..s.len()
        invariant
            out@ == replaced(s@, from, to).take(i as int),
    {
        let c: char = s[i];
        out.push(
            if c == from {
                to
            } else {
                c
            },
        );
        assert(out@ =~= replaced(s@, from, to).take(i + 1));
    }
    assert(replaced(s@, from, to).take(s@.len() as int) =~= replaced(s@, from, to));
    out
}

/// A text with its ASCII letters in upper case.
pub open spec fn upper(s: Seq<char>) -> Seq<char> {
    s.map_values(|c: char| ascii_upper(c))
}

pub fn upper_chars(s: &[char]) -> (out: Vec<char>)
    ensures
        out@ == upper(s@),
{
    let mut out: Vec<char> = Vec::new();
    for i in 0..s.len()
        invariant
            out@ == upper(s@).take(i as int),
    {
        out.push(upper_char(s[i]));
        assert(out@ =~= upper(s@).take(i + 1));
    }
    assert(upper(s@).take(s@.len() as int) =~= upper(s@));
    out
}

/// A text that starts with a prefix.
pub fn prefixed(prefix: &str, rest: &[char]) -> (text: String)
    ensures
        text@ == prefix@ + rest@,
{
    let mut text = prefix.to_owned();
    text.append(string_of(rest).as_str());
    text
}

// ---------------------------------------------------------------------------
// Numbers
// ---------------------------------------------------------------------------

pub open spec fn digit_value(c: char) -> int {
    (c as u32) - ('0' as u32)
}

pub open spec fn all_digits(s: Seq<char>) -> bool {
    forall|i: int| 0 <= i < s.len() ==> is_digit(#[trigger] s[i])
}

/// The number that a sequence of decimal digits spells.
pub open spec fn digits_value(s: Seq<char>) -> int
    decreases s.len(),
{
    if s.len() == 0 {
        0
    } else {
        digits_value(s.drop_last()) * 10 + digit_value(s.last())
    }
}

/// The unsigned number that a text spells: digits with an optional plus sign
/// before them, not above the greatest value of the type.
pub open spec fn unsigned_value(s: Seq<char>, max: int) -> Option<int> {
    let body = if s.len() > 0 && s.first() == '+' {
        s.skip(1)
    } else {
        s
    };
    if body.len() > 0 && all_digits(body) && digits_value(body) <= max {
        Some(digits_value(body))
    } else {
        None
    }
}

proof fn digits_value_grows(s: Seq<char>, n: int)
    requires
        all_digits(s),
        0 <= n <= s.len(),
    ensures
        0 <= digits_value(s.take(n)) <= digits_value(s),
    decreases s.len() - n, n,
{
    if n == s.len() {
        assert(s.take(n) =~= s);
        if n > 0 {
            let shorter = s.drop_last();
            assert forall|i: int| 0 <= i < shorter.len() implies is_digit(
                #[trigger] shorter[i],
            ) by {
                assert(shorter[i] == s[i]);
            }
            digits_value_grows(shorter, n - 1);
            assert(shorter.take(n - 1) =~= shorter);
            assert(is_digit(s[n - 1]));
        }
    } else {
        digits_value_grows(s, n + 1);
        let longer = s.take(n + 1);
        assert(longer.drop_last() =~= s.take(n));
        assert(is_digit(s[n]));
        let shorter = s.take(n);
        assert forall|i: int| 0 <= i < shorter.len() implies is_digit(#[trigger] shorter[i]) by {
            assert(shorter[i] == s[i]);
        }
        digits_nonnegative(shorter);
    }
}

proof fn digits_nonnegative(s: Seq<char>)
    requires
        all_digits(s),
    ensures
        digits_value(s) >= 0,
    decreases s.len(),
{
    if s.len() > 0 {
        let shorter = s.drop_last();
        assert forall|i: int| 0 <= i < shorter.len() implies is_digit(#[trigger] shorter[i]) by {
            assert(shorter[i] == s[i]);
        }
        digits_nonnegative(shorter);
        assert(is_digit(s[s.len() - 1]));
    }
}

/// Reads an unsigned number.
pub fn parse_u64(s: &[char]) -> (value: Option<u64>)
    ensures
        value is Some <==> unsigned_value(s@, u64::MAX as int) is Some,
        value is Some ==> value->Some_0 == unsigned_value(s@, u64::MAX as int)->Some_0,
{
    let body = if s.len() > 0 && s[0] == '+' {
        let rest = slice_subrange(s, 1, s.len());
        assert(rest@ =~= s@.skip(1));
        rest
    } else {
        s
    };
    if body.len() == 0 {
        return None;
    }
    let mut value: u64 = 0;
    for i in 0..body.len()
        invariant
            forall|j: int| 0 <= j < i ==> is_digit(#[trigger] body@[j]),
            value == digits_value(body@.take(i as int)),
            body@ == (if s@.len() > 0 && s@.first() == '+' {
                s@.skip(1)
            } else {
                s@
            }),
    {
        let c: char = body[i];
        if !digit_char(c) {
            assert(!is_digit(body@[i as int]));
            return None;
        }
        assert(body@.take(i + 1).drop_last() =~= body@.take(i as int));
        let ghost grown = digits_value(body@.take(i + 1));
        assert(grown == value * 10 + digit_value(c));
        proof {
            if all_digits(body@) {
                digits_value_grows(body@, i + 1);
            }
        }
        let digit: u64 = (c as u32 - '0' as u32) as u64;
        match value.checked_mul(10) {
            Some(shifted) => match shifted.checked_add(digit) {
                Some(next) => {
                    value = next;
                },
                None => {
                    return None;
                },
            },
            None => {
                return None;
            },
        }
    }
    assert(body@.take(body@.len() as int) =~= body@);
    Some(value)
}

/// The decimal digits of a number, without leading zeros.
pub open spec fn decimal(n: nat) -> Seq<char>
    decreases n,
{
    if n < 10 {
        seq![(('0' as u32) + n) as char]
    } else {
        decimal(n / 10).push((('0' as u32) + n % 10) as char)
    }
}

/// The digits of a number spell that number.
pub proof fn decimal_spells_the_number(n: nat)
    ensures
        decimal(n).len() > 0,
        all_digits(decimal(n)),
        digits_value(decimal(n)) == n,
    decreases n,
{
    let last = (('0' as u32) + n % 10) as char;
    assert(is_digit(last) && digit_value(last) == n % 10);
    if n < 10 {
        assert(n % 10 == n);
        assert(decimal(n).drop_last() =~= Seq::<char>::empty());
        assert(digits_value(Seq::<char>::empty()) == 0);
    } else {
        decimal_spells_the_number(n / 10);
        let s = decimal(n);
        assert(s.drop_last() =~= decimal(n / 10));
        assert forall|i: int| 0 <= i < s.len() implies is_digit(#[trigger] s[i]) by {
            if i < s.len() - 1 {
                assert(s[i] == decimal(n / 10)[i]);
            }
        }
    }
}

/// Writes a number in decimal digits.
pub fn decimal_text(n: u64) -> (text: String)
    ensures
        text@ == decimal(n as nat),
    decreases n,
{
    let digit: char = digit_of((n % 10) as u8);
    let mut text = if n < 10 {
        String::new()
    } else {
        decimal_text(n / 10)
    };
    text.push(digit);
    proof {
        if n < 10 {
            assert(text@ =~= decimal(n as nat));
        }
    }
    text
}

/// The character of a decimal digit.
pub fn digit_of(value: u8) -> (c: char)
    requires
        value < 10,
    ensures
        c == (('0' as u32) + value) as char,
        is_digit(c),
        digit_value(c) == value,
{
    (48u8 + value) as char
}

pub open spec fn hex_char(value: int) -> char {
    if value < 10 {
        (48 + value) as char
    } else {
        (87 + value) as char
    }
}

/// The lowest digits of a number in base sixteen.
pub open spec fn hex_digits(n: nat, width: nat) -> Seq<char>
    decreases width,
{
    if width == 0 {
        Seq::empty()
    } else {
        hex_digits(n / 16, (width - 1) as nat).push(hex_char((n % 16) as int))
    }
}

/// The lowest digits of a number in base sixteen.
pub fn hex_text(n: u128, width: u8) -> (text: String)
    ensures
        text@ == hex_digits(n as nat, width as nat),
    decreases width,
{
    if width == 0 {
        return String::new();
    }
    let mut text = hex_text(n / 16, width - 1);
    let digit: u8 = (n % 16) as u8;
    let c: char = if digit < 10 {
        (48u8 + digit) as char
    } else {
        (87u8 + digit) as char
    };
    text.push(c);
    text
}

// ---------------------------------------------------------------------------
// Order
// ---------------------------------------------------------------------------

/// Whether one text comes before another, character by character.
pub open spec fn lex_less(a: Seq<char>, b: Seq<char>) -> bool
    decreases a.len(),
{
    if b.len() == 0 {
        false
    } else if a.len() == 0 {
        true
    } else if a.first() == b.first() {
        lex_less(a.skip(1), b.skip(1))
    } else {
        a.first() < b.first()
    }
}

/// Any two texts are equal or one comes before the other, never both.
pub proof fn lex_less_total(a: Seq<char>, b: Seq<char>)
    ensures
        a == b || lex_less(a, b) || lex_less(b, a),
        !(lex_less(a, b) && lex_less(b, a)),
        !lex_less(a, a),
    decreases a.len() + b.len(),
{
    if a.len() > 0 {
        lex_less_total(a.skip(1), if b.len() > 0 {
            b.skip(1)
        } else {
            b
        });
    }
    if a.len() == 0 && b.len() == 0 {
        assert(a =~= b);
    } else if a.len() > 0 && b.len() > 0 && a.first() == b.first() {
        if a.skip(1) == b.skip(1) {
            assert(a =~= seq![a.first()] + a.skip(1));
            assert(b =~= seq![b.first()] + b.skip(1));
        }
    }
}

pub proof fn lex_less_transitive(a: Seq<char>, b: Seq<char>, c: Seq<char>)
    requires
        lex_less(a, b),
        lex_less(b, c),
    ensures
        lex_less(a, c),
    decreases a.len(),
{
    if a.len() > 0 && a.first() == b.first() && b.first() == c.first() {
        lex_less_transitive(a.skip(1), b.skip(1), c.skip(1));
    }
}

/// Whether one text comes before another.
pub fn text_before(left: &str, right: &str) -> (before: bool)
    ensures
        before == lex_less(left@, right@),
{
    let a = chars_of(left);
    let b = chars_of(right);
    let mut i: usize = 0;
    assert(a@.skip(0) =~= a@);
    assert(b@.skip(0) =~= b@);
    while i < a.len() && i < b.len()
        invariant
            i <= a@.len(),
            i <= b@.len(),
            lex_less(a@.skip(i as int), b@.skip(i as int)) == lex_less(left@, right@),
        decreases a@.len() - i,
    {
        assert(a@.skip(i as int).first() == a@[i as int]);
        assert(b@.skip(i as int).first() == b@[i as int]);
        if a[i] != b[i] {
            return a[i] < b[i];
        }
        assert(a@.skip(i as int).skip(1) =~= a@.skip(i + 1));
        assert(b@.skip(i as int).skip(1) =~= b@.skip(i + 1));
        i = i + 1;
    }
    i < b.len()
}

// ---------------------------------------------------------------------------
// Byte lengths
// ---------------------------------------------------------------------------

/// The bytes of a concatenation are the bytes of its parts, one after the other.
pub proof fn encoding_of_concatenation(a: Seq<char>, b: Seq<char>)
    ensures
        encode_utf8(a + b) == encode_utf8(a) + encode_utf8(b),
        byte_len(a + b) == byte_len(a) + byte_len(b),
    decreases a.len(),
{
    if a.len() == 0 {
        assert(a + b =~= b);
        assert(encode_utf8(a) =~= Seq::<u8>::empty());
        assert(encode_utf8(a) + encode_utf8(b) =~= encode_utf8(b));
    } else {
        let rest = a.drop_first();
        encoding_of_concatenation(rest, b);
        assert((a + b).drop_first() =~= rest + b);
        assert((a + b)[0] == a[0]);
        assert(encode_utf8(a + b) =~= encode_utf8(a) + encode_utf8(b));
    }
}

/// The number of bytes of a text in UTF-8.
pub fn text_bytes(text: &str) -> (count: usize)
    ensures
        count == byte_len(text@),
{
    text.as_bytes().len()
}

// ---------------------------------------------------------------------------
// Single lines
// ---------------------------------------------------------------------------

/// Whether a text holds no line feed.
#[verifier::opaque]
pub open spec fn one_line(s: Seq<char>) -> bool {
    forall|i: int| 0 <= i < s.len() ==> s[i] != '\n'
}

pub broadcast proof fn one_line_of_two(a: Seq<char>, b: Seq<char>)
    requires
        one_line(a),
        one_line(b),
    ensures
        #[trigger] one_line(a + b),
{
    reveal(one_line);
}

/// The digits of a number in base sixteen hold no line feed.
pub proof fn hex_digits_are_one_line(n: nat, width: nat)
    ensures
        one_line(hex_digits(n, width)),
    decreases width,
{
    reveal(one_line);
    if width > 0 {
        hex_digits_are_one_line(n / 16, (width - 1) as nat);
    }
}

/// The digits of a number hold no line feed.
pub broadcast proof fn decimal_is_one_line(n: nat)
    ensures
        #[trigger] one_line(decimal(n)),
{
    reveal(one_line);
    decimal_spells_the_number(n);
    assert forall|i: int| 0 <= i < decimal(n).len() implies decimal(n)[i] != '\n' by {
        assert(is_digit(decimal(n)[i]));
    }
}

proof fn encoded_scalar_holds_no_feed(scalar: u32)
    requires
        scalar != 10,
    ensures
        !encode_scalar(scalar).contains(10u8),
{
    assert(scalar <= 0x7f && scalar != 10 ==> (scalar & 0x7f) as u8 != 10) by (bit_vector);
    assert(0xC0u8 | ((scalar >> 6) & 0x1F) as u8 != 10) by (bit_vector);
    assert(0xE0u8 | ((scalar >> 12) & 0x0F) as u8 != 10) by (bit_vector);
    assert(0xF0u8 | ((scalar >> 18) & 0x7) as u8 != 10) by (bit_vector);
    assert(0x80u8 | (scalar & 0x3F) as u8 != 10) by (bit_vector);
    assert(0x80u8 | ((scalar >> 6) & 0x3F) as u8 != 10) by (bit_vector);
    assert(0x80u8 | ((scalar >> 12) & 0x3F) as u8 != 10) by (bit_vector);
}

proof fn encoded_char_holds_no_feed(c: char)
    requires
        c != '\n',
    ensures
        !encode_scalar(c as u32).contains(10u8),
{
    encoded_scalar_holds_no_feed(c as u32);
}

/// The bytes of a text without a line feed hold none either.
pub proof fn one_line_in_bytes(s: Seq<char>)
    requires
        one_line(s),
    ensures
        !encode_utf8(s).contains(10u8),
    decreases s.len(),
{
    reveal(one_line);
    if s.len() > 0 {
        let rest = s.drop_first();
        assert forall|i: int| 0 <= i < rest.len() implies rest[i] != '\n' by {
            assert(rest[i] == s[i + 1]);
        }
        one_line_in_bytes(rest);
        encoded_char_holds_no_feed(s[0]);
        let head = encode_scalar(s[0] as u32);
        let tail = encode_utf8(rest);
        assert forall|i: int| 0 <= i < (head + tail).len() implies (head + tail)[i] != 10u8 by {
            if i < head.len() {
                assert(head.contains(head[i]));
            } else {
                assert(tail.contains(tail[i - head.len()]));
            }
        }
    }
}

} // verus!
