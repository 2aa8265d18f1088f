//! Text as a sequence of characters: the searches, comparisons and rewrites
//! that the rest of the library is stated over.

use vstd::prelude::*;
use vstd::string::*;

verus! {

// ---------------------------------------------------------------------------
// What the standard library does to text
// ---------------------------------------------------------------------------

/// `String::push` appends one character to the text.
pub assume_specification[ String::push ](s: &mut String, c: char)
    ensures
        final(s)@ == old(s)@.push(c),
;

/// What `str::to_lowercase` makes of a text: the lower-case mapping of Unicode.
pub uninterp spec fn lowercase_of(text: Seq<char>) -> Seq<char>;

/// Calls `str::to_lowercase`. Its result depends on the text alone and is named
/// [`lowercase_of`]; where the text is ASCII it is the ASCII lower-case mapping,
/// character by character. The mapping of other characters is left to its name.
#[verifier::external_body]
pub(crate) fn lowercase(text: &str) -> (lower: String)
    ensures
        lower@ == lowercase_of(text@),
        text.is_ascii() ==> lower@ == ascii_lowercase(text@),
{
    text.to_lowercase()
}

/// The characters that Unicode gives the White_Space property.
pub open spec fn is_white(c: char) -> bool {
    ||| '\u{9}' <= c <= '\u{d}'
    ||| c == '\u{20}'
    ||| c == '\u{85}'
    ||| c == '\u{a0}'
    ||| c == '\u{1680}'
    ||| '\u{2000}' <= c <= '\u{200a}'
    ||| c == '\u{2028}'
    ||| c == '\u{2029}'
    ||| c == '\u{202f}'
    ||| c == '\u{205f}'
    ||| c == '\u{3000}'
}

/// A text without the white space at its two ends.
pub open spec fn trimmed(text: Seq<char>) -> Seq<char>
    decreases text.len(),
{
    if text.len() == 0 {
        text
    } else if is_white(text[0]) {
        trimmed(text.skip(1))
    } else if is_white(text.last()) {
        trimmed(text.drop_last())
    } else {
        text
    }
}

// ---------------------------------------------------------------------------
// Characters
// ---------------------------------------------------------------------------

/// The lower-case form of an ASCII letter; every other character as it is.
pub open spec fn ascii_lower(c: char) -> char {
    if 'A' <= c <= 'Z' {
        (c as int + 32) as char
    } else {
        c
    }
}

/// [`ascii_lower`] on each character.
pub open spec fn ascii_lowercase(text: Seq<char>) -> Seq<char> {
    text.map_values(|c: char| ascii_lower(c))
}

/// An ASCII letter of either case.
pub open spec fn is_ascii_letter(c: char) -> bool {
    'a' <= c <= 'z' || 'A' <= c <= 'Z'
}

fn ascii_lower_char(c: char) -> (lower: char)
    ensures
        lower == ascii_lower(c),
{
    if 'A' <= c && c <= 'Z' {
        (c as u8 + 32) as char
    } else {
        c
    }
}

/// Whether `c` is an ASCII letter of either case.
pub fn ascii_letter(c: char) -> (yes: bool)
    ensures
        yes == is_ascii_letter(c),
{
    ('a' <= c && c <= 'z') || ('A' <= c && c <= 'Z')
}

// ---------------------------------------------------------------------------
// Between strings and characters
// ---------------------------------------------------------------------------

/// The characters of a text, in order.
pub fn chars_of(text: &str) -> (chars: Vec<char>)
    ensures
        chars@ == text@,
{
    let mut chars: Vec<char> = Vec::new();
    for c in it: text.chars()
        invariant
            it.seq() == text@,
            chars@ == text@.take(it.index()),
    {
        chars.push(c);
    }
    chars
}

/// The text made of the given characters.
pub fn string_of(chars: &Vec<char>) -> (text: String)
    ensures
        text@ == chars@,
{
    let mut text = String::new();
    for i in 0..chars.len()
        invariant
            text@ == chars@.take(i as int),
    {
        text.push(chars[i]);
    }
    assert(chars@.take(chars.len() as int) == chars@);
    text
}

/// The text that an optional string holds.
pub open spec fn text_in(string: Option<String>) -> Option<Seq<char>> {
    match string {
        Some(s) => Some(s@),
        None => None,
    }
}

/// The texts of a row of strings.
pub open spec fn texts(strings: Seq<String>) -> Seq<Seq<char>> {
    strings.map_values(|s: String| s@)
}

/// A copy of an optional string.
pub fn copy_of(text: &Option<String>) -> (copy: Option<String>)
    ensures
        copy == *text,
{
    match text {
        Some(text) => Some(text.clone()),
        None => None,
    }
}

/// A copy of a row of strings.
pub fn copy_of_all(strings: &Vec<String>) -> (copy: Vec<String>)
    ensures
        copy@ == strings@,
{
    let mut copy: Vec<String> = Vec::new();
    for i in 0..strings.len()
        invariant
            copy@ == strings@.take(i as int),
    {
        copy.push(strings[i].clone());
    }
    assert(strings@.take(strings.len() as int) =~= strings@);
    copy
}

fn white(c: char) -> (yes: bool)
    ensures
        yes == is_white(c),
{
    ('\u{9}' <= c && c <= '\u{d}') || c == '\u{20}' || c == '\u{85}' || c == '\u{a0}' || c
        == '\u{1680}' || ('\u{2000}' <= c && c <= '\u{200a}') || c == '\u{2028}' || c == '\u{2029}'
        || c == '\u{202f}' || c == '\u{205f}' || c == '\u{3000}'
}

/// A text without the white space at its two ends.
pub fn trim(text: &str) -> (inner: String)
    ensures
        inner@ == trimmed(text@),
{
    let chars = chars_of(text);
    let mut from: usize = 0;
    assert(text@.subrange(0, chars.len() as int) =~= text@);
    while from < chars.len() && white(chars[from])
        invariant
            chars@ == text@,
            from <= chars.len(),
            trimmed(text@.subrange(from as int, chars.len() as int)) == trimmed(text@),
        decreases chars.len() - from,
    {
        let ghost rest = text@.subrange(from as int, chars.len() as int);
        assert(rest.skip(1) =~= text@.subrange(from + 1, chars.len() as int));
        from = from + 1;
    }
    let mut to: usize = chars.len();
    while to > from && white(chars[to - 1])
        invariant
            chars@ == text@,
            from <= to <= chars.len(),
            from < to ==> !is_white(text@[from as int]),
            trimmed(text@.subrange(from as int, to as int)) == trimmed(text@),
        decreases to,
    {
        let ghost rest = text@.subrange(from as int, to as int);
        assert(rest.drop_last() =~= text@.subrange(from as int, to - 1));
        to = to - 1;
    }
    let mut inner = String::new();
    for i in from..to
        invariant
            chars@ == text@,
            from <= to <= chars.len(),
            inner@ == text@.subrange(from as int, i as int),
    {
        inner.push(chars[i]);
        assert(inner@ =~= text@.subrange(from as int, i + 1));
    }
    inner
}

// ---------------------------------------------------------------------------
// Comparisons
// ---------------------------------------------------------------------------

/// `piece` stands somewhere in `text`.
pub open spec fn has_piece(text: Seq<char>, piece: Seq<char>) -> bool {
    exists|at: int| piece_at(text, piece, at)
}

/// `piece` stands in `text` at the position `at`.
pub open spec fn piece_at(text: Seq<char>, piece: Seq<char>, at: int) -> bool {
    &&& 0 <= at <= text.len() - piece.len()
    &&& text.subrange(at, at + piece.len()) == piece
}

/// Being the character `c`.
pub open spec fn being(c: char) -> spec_fn(char) -> bool {
    |d: char| d == c
}

/// How often `c` occurs in `text`.
pub open spec fn occurrences(text: Seq<char>, c: char) -> nat {
    text.filter(being(c)).len()
}

fn chars_at(text: &Vec<char>, piece: &Vec<char>, at: usize) -> (yes: bool)
    requires
        at + piece.len() <= text.len(),
    ensures
        yes == piece_at(text@, piece@, at as int),
{
    for i in 0..piece.len()
        invariant
            at + piece.len() <= text.len(),
            forall|j: int| 0 <= j < i ==> text@[at + j] == piece@[j],
    {
        if text[at + i] != piece[i] {
            assert(text@.subrange(at as int, at + piece.len())[i as int] != piece@[i as int]);
            return false;
        }
    }
    assert(text@.subrange(at as int, at + piece.len()) =~= piece@);
    true
}

/// Whether the two texts are the same.
pub fn same_text(a: &str, b: &str) -> (yes: bool)
    ensures
        yes == (a@ == b@),
{
    let a_chars = chars_of(a);
    let b_chars = chars_of(b);
    if a_chars.len() != b_chars.len() {
        return false;
    }
    let yes = chars_at(&a_chars, &b_chars, 0);
    assert(a@.subrange(0, a@.len() as int) =~= a@);
    yes
}

/// Whether one of the strings is the given text.
pub fn one_is(strings: &Vec<String>, wanted: &str) -> (yes: bool)
    ensures
        yes == texts(strings@).contains(wanted@),
{
    for i in 0..strings.len()
        invariant
            forall|j: int| 0 <= j < i ==> strings@[j]@ != wanted@,
    {
        if same_text(strings[i].as_str(), wanted) {
            assert(texts(strings@)[i as int] == wanted@);
            return true;
        }
    }
    false
}

/// Whether the two texts are the same when the case of ASCII letters is set aside.
pub fn same_text_ignoring_case(a: &str, b: &str) -> (yes: bool)
    ensures
        yes == (ascii_lowercase(a@) == ascii_lowercase(b@)),
{
    let a_chars = chars_of(a);
    let b_chars = chars_of(b);
    if a_chars.len() != b_chars.len() {
        assert(ascii_lowercase(a@).len() != ascii_lowercase(b@).len());
        return false;
    }
    for i in 0..a_chars.len()
        invariant
            a_chars@ == a@,
            b_chars@ == b@,
            a_chars.len() == b_chars.len(),
            forall|j: int| 0 <= j < i ==> ascii_lower(a@[j]) == ascii_lower(b@[j]),
    {
        if ascii_lower_char(a_chars[i]) != ascii_lower_char(b_chars[i]) {
            assert(ascii_lowercase(a@)[i as int] != ascii_lowercase(b@)[i as int]);
            return false;
        }
    }
    assert(ascii_lowercase(a@) =~= ascii_lowercase(b@));
    true
}

/// Whether `text` begins with `head`.
pub fn begins_with(text: &str, head: &str) -> (yes: bool)
    ensures
        yes == head@.is_prefix_of(text@),
{
    let chars = chars_of(text);
    let piece = chars_of(head);
    if piece.len() > chars.len() {
        return false;
    }
    chars_at(&chars, &piece, 0)
}

/// Whether `text` ends with `tail`.
pub fn finishes_with(text: &str, tail: &str) -> (yes: bool)
    ensures
        yes == tail@.is_suffix_of(text@),
{
    let chars = chars_of(text);
    let piece = chars_of(tail);
    if piece.len() > chars.len() {
        return false;
    }
    chars_at(&chars, &piece, chars.len() - piece.len())
}

/// Whether `piece` stands somewhere in `text`.
pub fn holds_piece(text: &str, piece: &str) -> (yes: bool)
    ensures
        yes == has_piece(text@, piece@),
{
    let chars = chars_of(text);
    let wanted = chars_of(piece);
    if wanted.len() > chars.len() {
        return false;
    }
    let last: usize = chars.len() - wanted.len();
    let mut at: usize = 0;
    while at <= last
        invariant
            chars@ == text@,
            wanted@ == piece@,
            last + wanted.len() == chars.len(),
            at <= last + 1,
            forall|k: int| 0 <= k < at ==> !piece_at(text@, piece@, k),
        decreases last + 1 - at,
    {
        if chars_at(&chars, &wanted, at) {
            return true;
        }
        if at == last {
            return false;
        }
        at = at + 1;
    }
    false
}

/// Whether `c` occurs in `text`.
pub fn holds_char(text: &str, c: char) -> (yes: bool)
    ensures
        yes == text@.contains(c),
{
    let chars = chars_of(text);
    for i in 0..chars.len()
        invariant
            chars@ == text@,
            forall|j: int| 0 <= j < i ==> text@[j] != c,
    {
        if chars[i] == c {
            assert(text@[i as int] == c);
            return true;
        }
    }
    false
}

/// How often `c` occurs in `text`.
pub fn count_char(text: &str, c: char) -> (count: usize)
    ensures
        count == occurrences(text@, c),
{
    let chars = chars_of(text);
    let mut count: usize = 0;
    proof {
        reveal(Seq::filter);
    }
    for i in 0..chars.len()
        invariant
            chars@ == text@,
            count <= i,
            count == text@.take(i as int).filter(being(c)).len(),
    {
        proof {
            reveal(Seq::filter);
            assert(text@.take(i + 1).drop_last() =~= text@.take(i as int));
        }
        if chars[i] == c {
            count = count + 1;
        }
    }
    assert(text@.take(chars.len() as int) =~= text@);
    count
}

// ---------------------------------------------------------------------------
// Laws
// ---------------------------------------------------------------------------


/// A piece is found wherever it stands, and what is found stands there.
pub proof fn law_a_piece_is_found_where_it_stands(
    before: Seq<char>,
    piece: Seq<char>,
    after: Seq<char>,
    text: Seq<char>,
)
    ensures
        has_piece(before + piece + after, piece),
        has_piece(text, piece) <==> exists|at: int|
            0 <= at <= text.len() - piece.len() && #[trigger] text.subrange(
                at,
                at + piece.len(),
            ) == piece,
{
    let whole = before + piece + after;
    let at = before.len() as int;
    assert(whole.subrange(at, at + piece.len()) =~= piece);
    assert(piece_at(whole, piece, at));
    if exists|at: int|
        0 <= at <= text.len() - piece.len() && #[trigger] text.subrange(at, at + piece.len())
            == piece {
        let at = choose|at: int|
            0 <= at <= text.len() - piece.len() && #[trigger] text.subrange(at, at + piece.len())
                == piece;
        assert(piece_at(text, piece, at));
    }
}

/// Occurrences are counted one by one: in a text and one character more there is one more
/// exactly where it is the character that is counted.
pub proof fn law_occurrences_add_up(text: Seq<char>, d: char, c: char)
    ensures
        occurrences(Seq::empty(), c) == 0,
        occurrences(text.push(d), c) == occurrences(text, c) + (if d == c {
            1int
        } else {
            0int
        }),
{
    reveal(Seq::filter);
    assert(text.push(d).drop_last() =~= text);
}

/// Setting case aside changes the twenty-six letters and nothing else: each upper-case one
/// becomes the lower-case one, in its place.
pub proof fn law_only_upper_case_letters_change(text: Seq<char>, i: int)
    requires
        0 <= i < text.len(),
    ensures
        ascii_lowercase(text).len() == text.len(),
        'A' <= text[i] <= 'Z' ==> ascii_lowercase(text)[i] as int == text[i] as int + 32,
        !('A' <= text[i] <= 'Z') ==> ascii_lowercase(text)[i] == text[i],
        ascii_lowercase(ascii_lowercase(text)) == ascii_lowercase(text),
{
    assert(ascii_lowercase(ascii_lowercase(text)) =~= ascii_lowercase(text));
}

/// Trimming takes white space off the two ends, all of it, and nothing else: what is left
/// reaches from `ends.0` to `ends.1`.
pub proof fn law_trimming_takes_off_the_ends(text: Seq<char>) -> (ends: (int, int))
    ensures
        0 <= ends.0 <= ends.1 <= text.len(),
        trimmed(text) == text.subrange(ends.0, ends.1),
        forall|i: int| 0 <= i < ends.0 ==> is_white(#[trigger] text[i]),
        forall|i: int| ends.1 <= i < text.len() ==> is_white(#[trigger] text[i]),
        ends.0 < ends.1 ==> !is_white(text[ends.0]) && !is_white(text[ends.1 - 1]),
    decreases text.len(),
{
    if text.len() == 0 {
        assert(trimmed(text) =~= text.subrange(0, 0));
        (0, 0)
    } else if is_white(text[0]) {
        let rest = text.skip(1);
        let (from, to) = law_trimming_takes_off_the_ends(rest);
        assert(trimmed(text) =~= text.subrange(from + 1, to + 1));
        assert forall|i: int| 0 <= i < from + 1 implies is_white(#[trigger] text[i]) by {
            if i > 0 {
                assert(rest[i - 1] == text[i]);
            }
        }
        assert forall|i: int| to + 1 <= i < text.len() implies is_white(#[trigger] text[i]) by {
            assert(rest[i - 1] == text[i]);
        }
        (from + 1, to + 1)
    } else if is_white(text.last()) {
        let rest = text.drop_last();
        let (from, to) = law_trimming_takes_off_the_ends(rest);
        assert(trimmed(text) =~= text.subrange(from, to));
        assert forall|i: int| 0 <= i < from implies is_white(#[trigger] text[i]) by {
            assert(rest[i] == text[i]);
        }
        assert forall|i: int| to <= i < text.len() implies is_white(#[trigger] text[i]) by {
            if i < rest.len() {
                assert(rest[i] == text[i]);
            }
        }
        (from, to)
    } else {
        assert(trimmed(text) =~= text.subrange(0, text.len() as int));
        (0, text.len() as int)
    }
}

/// Letters, digits and punctuation are not white; the blank and the control characters that
/// move the pen are.
pub proof fn law_what_is_printed_is_not_white(c: char)
    ensures
        '!' <= c <= '~' ==> !is_white(c),
        c == ' ' || c == '\t' || c == '\n' || c == '\r' ==> is_white(c),
{
}

/// A row of strings has the texts of its strings, each in its place; an optional string has
/// the text of the string.
pub proof fn law_strings_have_their_texts(strings: Seq<String>, string: String, i: int)
    requires
        0 <= i < strings.len(),
    ensures
        texts(strings).len() == strings.len(),
        texts(strings)[i] == strings[i]@,
        text_in(Some(string)) == Some(string@),
        text_in(None) is None,
{
}

/// White space is what Unicode calls so, by code point.
pub proof fn law_white_space_by_code_point(c: char)
    ensures
        is_white(c) <==> {
            let code = c as int;
            ||| 9 <= code <= 13
            ||| code == 32
            ||| code == 133
            ||| code == 160
            ||| code == 5760
            ||| 8192 <= code <= 8202
            ||| code == 8232
            ||| code == 8233
            ||| code == 8239
            ||| code == 8287
            ||| code == 12288
        },
{
}

} // verus!
