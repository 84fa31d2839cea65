//! Helpers on strings: views of string lists, comparison, membership, copies.

use vstd::prelude::*;
use vstd::utf8::is_ascii_chars;

verus! {

/// The texts of a list of strings.
pub open spec fn texts(list: Seq<String>) -> Seq<Seq<char>> {
    list.map_values(|s: String| s@)
}

/// The text of an optional string.
pub open spec fn optional_text(value: Option<String>) -> Option<Seq<char>> {
    match value {
        Some(s) => Some(s@),
        None => None,
    }
}

/// Whether two strings hold the same characters.
pub fn same_text(a: &str, b: &str) -> (res: bool)
    ensures
        res == (a@ == b@),
{
    String::from_str(a) == String::from_str(b)
}

/// Whether `list` holds the string `wanted`.
pub fn contains_text(list: &Vec<String>, wanted: &str) -> (res: bool)
    ensures
        res == texts(list@).contains(wanted@),
{
    let owned = String::from_str(wanted);
    let mut i: usize = 0;
    while i < list.len()
        invariant
            i <= list.len(),
            owned@ == wanted@,
            forall|k: int| 0 <= k < i ==> list@[k]@ != wanted@,
        decreases list.len() - i,
    {
        if list[i] == owned {
            proof {
                assert(texts(list@)[i as int] == wanted@);
            }
            return true;
        }
        i = i + 1;
    }
    proof {
        if texts(list@).contains(wanted@) {
            let k = choose|k: int| 0 <= k < texts(list@).len() && texts(list@)[k] == wanted@;
            assert(list@[k]@ == wanted@);
        }
    }
    false
}

/// A copy of a list of strings.
pub fn copy_texts(list: &Vec<String>) -> (res: Vec<String>)
    ensures
        texts(res@) == texts(list@),
{
    let mut out: Vec<String> = Vec::new();
    let mut i: usize = 0;
    while i < list.len()
        invariant
            i <= list.len(),
            out@.len() == i,
            forall|k: int| 0 <= k < i ==> out@[k]@ == list@[k]@,
        decreases list.len() - i,
    {
        out.push(list[i].clone());
        i = i + 1;
    }
    proof {
        assert(texts(out@) =~= texts(list@));
    }
    out
}

/// A copy of an optional string.
pub fn copy_optional(value: &Option<String>) -> (res: Option<String>)
    ensures
        optional_text(res) == optional_text(*value),
{
    match value {
        Some(s) => Some(s.clone()),
        None => None,
    }
}

/// Whether a character has the Unicode property `White_Space`.
pub open spec fn is_white(c: char) -> bool {
    ('\u{9}' <= c && c <= '\u{d}') || c == ' ' || c == '\u{85}' || c == '\u{a0}' || c == '\u{1680}'
        || ('\u{2000}' <= c && c <= '\u{200a}') || c == '\u{2028}' || c == '\u{2029}' || c
        == '\u{202f}' || c == '\u{205f}' || c == '\u{3000}'
}

/// Whether a character is white space.
pub fn white(c: char) -> (res: bool)
    ensures
        res == is_white(c),
{
    ('\u{9}' <= c && c <= '\u{d}') || c == ' ' || c == '\u{85}' || c == '\u{a0}' || c == '\u{1680}'
        || ('\u{2000}' <= c && c <= '\u{200a}') || c == '\u{2028}' || c == '\u{2029}' || c
        == '\u{202f}' || c == '\u{205f}' || c == '\u{3000}'
}

/// Whether a text holds nothing but white space.
pub open spec fn is_blank(text: Seq<char>) -> bool {
    forall|i: int| 0 <= i < text.len() ==> is_white(#[trigger] text[i])
}

/// The characters of a text.
pub fn chars_of(text: &str) -> (res: Vec<char>)
    ensures
        res@ == text@,
{
    let mut out: Vec<char> = Vec::new();
    for c in it: text.chars()
        invariant
            out@ == it.seq().take(it.index() as int),
            it.seq() == text@,
    {
        proof {
            assert(it.seq().take(it.index() + 1) =~= it.seq().take(it.index() as int).push(c));
        }
        out.push(c);
    }
    proof {
        assert(out@ =~= text@);
    }
    out
}

/// Whether a text holds nothing but white space.
pub fn blank(text: &str) -> (res: bool)
    ensures
        res == is_blank(text@),
{
    let chars = chars_of(text);
    let mut i: usize = 0;
    while i < chars.len()
        invariant
            i <= chars.len(),
            chars@ == text@,
            forall|k: int| 0 <= k < i ==> is_white(#[trigger] text@[k]),
        decreases chars.len() - i,
    {
        if !white(chars[i]) {
            return false;
        }
        i = i + 1;
    }
    true
}

/// The text of a decimal digit.
pub open spec fn digit_text(d: nat) -> Seq<char> {
    if d == 0 {
        "0"@
    } else if d == 1 {
        "1"@
    } else if d == 2 {
        "2"@
    } else if d == 3 {
        "3"@
    } else if d == 4 {
        "4"@
    } else if d == 5 {
        "5"@
    } else if d == 6 {
        "6"@
    } else if d == 7 {
        "7"@
    } else if d == 8 {
        "8"@
    } else {
        "9"@
    }
}

/// A number in decimal.
pub open spec fn decimal(n: nat) -> Seq<char>
    decreases n,
{
    if n < 10 {
        digit_text(n)
    } else {
        decimal(n / 10) + digit_text(n % 10)
    }
}

/// The text of a decimal digit.
fn digit(d: u64) -> (res: &'static str)
    requires
        d < 10,
    ensures
        res@ == digit_text(d as nat),
{
    if d == 0 {
        "0"
    } else if d == 1 {
        "1"
    } else if d == 2 {
        "2"
    } else if d == 3 {
        "3"
    } else if d == 4 {
        "4"
    } else if d == 5 {
        "5"
    } else if d == 6 {
        "6"
    } else if d == 7 {
        "7"
    } else if d == 8 {
        "8"
    } else {
        "9"
    }
}

/// A number in decimal.
pub fn decimal_text(n: u64) -> (res: String)
    ensures
        res@ == decimal(n as nat),
    decreases n,
{
    if n < 10 {
        String::from_str(digit(n))
    } else {
        decimal_text(n / 10).concat(digit(n % 10))
    }
}

/// Three texts, one after the other.
pub fn concat3(a: &str, b: &str, c: &str) -> (res: String)
    ensures
        res@ == a@ + b@ + c@,
{
    String::from_str(a).concat(b).concat(c)
}

/// The lower-case form of an ASCII character.
pub open spec fn ascii_lower(c: char) -> char {
    if 'A' <= c && c <= 'Z' {
        ((c as u32) + 32) as char
    } else {
        c
    }
}

/// An ASCII text in lower case: `a` to `z` stand for `A` to `Z`, and every other
/// character stays.
pub open spec fn ascii_lowered(text: Seq<char>) -> Seq<char> {
    text.map_values(|c: char| ascii_lower(c))
}

/// What the standard library's lower-casing makes of a text that is not ASCII.
pub uninterp spec fn unicode_lowered(text: Seq<char>) -> Seq<char>;

/// A text in lower case.
pub open spec fn lowercased(text: Seq<char>) -> Seq<char> {
    if is_ascii_chars(text) {
        ascii_lowered(text)
    } else {
        unicode_lowered(text)
    }
}

/// Calls `str::to_lowercase`. On ASCII text it turns the letters `A` to `Z` into
/// `a` to `z` and leaves every other character as it is.
#[verifier::external_body]
pub(crate) fn to_lowercase(text: &str) -> (res: String)
    ensures
        is_ascii_chars(text@) ==> res@ == ascii_lowered(text@),
        !is_ascii_chars(text@) ==> res@ == unicode_lowered(text@),
{
    text.to_lowercase()
}

/// `String::push` appends the character to the end of the string.
pub assume_specification[ String::push ](s: &mut String, ch: char)
    ensures
        final(s)@ == old(s)@.push(ch),
;

/// Whether `part` stands in `text` at position `i`.
pub open spec fn stands_at(text: Seq<char>, part: Seq<char>, i: int) -> bool {
    0 <= i && i + part.len() <= text.len() && text.subrange(i, i + part.len()) == part
}

/// Whether `part` stands somewhere in `text`.
pub open spec fn holds_run(text: Seq<char>, part: Seq<char>) -> bool {
    exists|i: int| stands_at(text, part, i)
}

/// Whether `part` stands somewhere in `text`.
pub fn contains_run(text: &str, part: &str) -> (res: bool)
    ensures
        res == holds_run(text@, part@),
{
    let t = chars_of(text);
    let p = chars_of(part);
    if p.len() > t.len() {
        proof {
            assert forall|k: int| !stands_at(text@, part@, k) by {}
        }
        return false;
    }
    if p.len() == 0 {
        proof {
            assert(text@.subrange(0, 0) =~= part@);
            assert(stands_at(text@, part@, 0));
        }
        return true;
    }
    let last: usize = t.len() - p.len();
    let mut i: usize = 0;
    while i <= last
        invariant
            t@ == text@,
            p@ == part@,
            0 < p.len() <= t.len(),
            last == t.len() - p.len(),
            i <= last + 1,
            forall|k: int| 0 <= k < i ==> !#[trigger] stands_at(text@, part@, k),
        decreases last + 1 - i,
    {
        let mut j: usize = 0;
        while j < p.len() && t[i + j] == p[j]
            invariant
                t@ == text@,
                p@ == part@,
                i + p.len() <= t.len(),
                j <= p.len(),
                forall|k: int| 0 <= k < j ==> text@[i + k] == part@[k],
            decreases p.len() - j,
        {
            j = j + 1;
        }
        if j == p.len() {
            proof {
                assert(text@.subrange(i as int, i + part@.len()) =~= part@);
                assert(stands_at(text@, part@, i as int));
            }
            return true;
        }
        proof {
            if stands_at(text@, part@, i as int) {
                assert(text@.subrange(i as int, i + part@.len())[j as int] == part@[j as int]);
            }
        }
        i = i + 1;
    }
    proof {
        assert forall|k: int| !stands_at(text@, part@, k) by {
            if stands_at(text@, part@, k) {
                assert(k <= last);
            }
        }
    }
    false
}

/// A list of strings reads as the strings in it, each in its place.
pub proof fn law_texts_are_the_strings(list: Seq<String>, i: int)
    requires
        0 <= i < list.len(),
    ensures
        texts(list).len() == list.len(),
        texts(list)[i] == list[i]@,
{
}

/// An optional string reads as the string, where there is one.
pub proof fn law_optional_text_is_the_string(text: String)
    ensures
        optional_text(Some(text)) == Some(text@),
        optional_text(None) == None::<Seq<char>>,
{
}

/// A text is blank unless a character in it is not white space.
pub proof fn law_blank_texts(text: Seq<char>)
    ensures
        is_blank(text) <==> !exists|i: int| 0 <= i < text.len() && !is_white(#[trigger] text[i]),
{
}

/// Lower-casing an ASCII text moves each of its capital letters to the small
/// letter thirty-two places on and leaves every other character as it is.
pub proof fn law_ascii_texts_lose_their_capitals(text: Seq<char>, i: int)
    requires
        is_ascii_chars(text),
        0 <= i < text.len(),
    ensures
        lowercased(text).len() == text.len(),
        'A' <= text[i] <= 'Z' ==> lowercased(text)[i] as int == text[i] as int + 32,
        !('A' <= text[i] <= 'Z') ==> lowercased(text)[i] == text[i],
{
}

/// A text holds a part exactly where it is the part with something before it and
/// something after it.
pub proof fn law_runs_stand_anywhere(before: Seq<char>, part: Seq<char>, after: Seq<char>)
    ensures
        holds_run(before + part + after, part),
{
    let text = before + part + after;
    let i = before.len() as int;
    assert(text.subrange(i, i + part.len()) =~= part);
    assert(stands_at(text, part, i));
}

/// What a text holds stands somewhere in it.
pub proof fn law_a_held_run_stands_somewhere(text: Seq<char>, part: Seq<char>)
    requires
        holds_run(text, part),
    ensures
        exists|before: Seq<char>, after: Seq<char>| text == #[trigger] (before + part + after),
{
    let i = choose|i: int| stands_at(text, part, i);
    let before = text.take(i);
    let after = text.skip(i + part.len());
    assert(text =~= before + part + after);
}

/// The number that a text of decimal digits stands for.
pub open spec fn number_of(text: Seq<char>) -> int
    decreases text.len(),
{
    if text.len() == 0 {
        0
    } else {
        number_of(text.drop_last()) * 10 + (text.last() as int - 48)
    }
}

proof fn lemma_digit(d: nat)
    requires
        d < 10,
    ensures
        digit_text(d).len() == 1,
        digit_text(d)[0] as int == 48 + d,
{
    reveal_strlit("0");
    reveal_strlit("1");
    reveal_strlit("2");
    reveal_strlit("3");
    reveal_strlit("4");
    reveal_strlit("5");
    reveal_strlit("6");
    reveal_strlit("7");
    reveal_strlit("8");
    reveal_strlit("9");
}

/// A number is written in decimal digits that read as the number, without a zero
/// in front.
pub proof fn law_decimals_read_as_the_number(n: nat)
    ensures
        number_of(decimal(n)) == n,
        decimal(n).len() > 0,
        forall|i: int| 0 <= i < decimal(n).len() ==> '0' <= #[trigger] decimal(n)[i] <= '9',
        n > 0 ==> decimal(n)[0] != '0',
        n == 0 ==> decimal(n).len() == 1,
    decreases n,
{
    if n < 10 {
        lemma_digit(n);
        assert(decimal(n).drop_last() =~= Seq::empty());
        assert(number_of(decimal(n).drop_last()) == 0);
    } else {
        let front = decimal(n / 10);
        let end = digit_text(n % 10);
        law_decimals_read_as_the_number(n / 10);
        lemma_digit(n % 10);
        assert(decimal(n) == front + end);
        assert((front + end).drop_last() =~= front);
        assert((front + end).last() == end[0]);
        assert forall|i: int| 0 <= i < decimal(n).len() implies '0' <= #[trigger] decimal(n)[i]
            <= '9' by {
            if i < front.len() {
                assert(decimal(n)[i] == front[i]);
            }
        }
        assert(decimal(n)[0] == front[0]);
    }
}

} // verus!
