//! Reads requested credential types out of DCP scope strings: a scope of the
//! form `org.eclipse.dspace.dcp.vc.type:<Type>[:<suffix>]` denotes access to the
//! credential type `<Type>`.

use regex::Regex;
use vstd::prelude::*;

use crate::text::{chars_of, contains_text, is_white, optional_text, texts, white};

verus! {

/// The scope pattern that is used unless another one is configured.
pub const DEFAULT_SCOPE_PATTERN: &'static str =
    "org[.]eclipse[.]dspace[.]dcp[.]vc[.]type:(?P<type>[^:]+)(?P<suffix>:.+)?";

/// What a scope must hold, before the type, to match the default pattern.
pub const DEFAULT_SCOPE_PREFIX: &'static str = "org.eclipse.dspace.dcp.vc.type:";

#[verifier::external_type_specification]
#[verifier::external_body]
pub struct ExRegex(Regex);

#[verifier::external_type_specification]
#[verifier::external_body]
pub struct ExRegexError(regex::Error);

/// The pattern that a regular expression was compiled from, as
/// `regex::Regex::as_str` gives it.
pub uninterp spec fn pattern_of(regex: Regex) -> Seq<char>;

/// Whether `regex::Regex::new` takes a pattern.
pub uninterp spec fn compiles(pattern: Seq<char>) -> bool;

/// What the group named `type` holds in the leftmost match of a pattern in a
/// text, `None` where there is no match or the group takes no part in it.
pub uninterp spec fn captured_type(pattern: Seq<char>, text: Seq<char>) -> Option<Seq<char>>;

/// Whether the default pattern matches at position `i`.
pub open spec fn default_matches_at(text: Seq<char>, i: int) -> bool {
    let start = i + DEFAULT_SCOPE_PREFIX@.len();
    &&& 0 <= i
    &&& start < text.len()
    &&& text.subrange(i, start) == DEFAULT_SCOPE_PREFIX@
    &&& text[start] != ':'
}

/// The first position from `i` on at which the default pattern matches.
pub open spec fn default_match(text: Seq<char>, i: int) -> Option<int>
    decreases text.len() - i,
{
    if i >= text.len() {
        None
    } else if default_matches_at(text, i) {
        Some(i)
    } else {
        default_match(text, i + 1)
    }
}

/// The first position from `i` on that holds a colon, or the end of the text.
pub open spec fn colon_from(text: Seq<char>, i: int) -> int
    decreases text.len() - i,
{
    if i >= text.len() {
        text.len() as int
    } else if text[i] == ':' {
        i
    } else {
        colon_from(text, i + 1)
    }
}

/// What the default pattern captures: the run without a colon that follows the
/// first occurrence of the prefix that one follows.
pub open spec fn default_type(text: Seq<char>) -> Option<Seq<char>> {
    match default_match(text, 0) {
        Some(i) => {
            let start = i + DEFAULT_SCOPE_PREFIX@.len();
            Some(text.subrange(start, colon_from(text, start)))
        },
        None => None,
    }
}

/// Calls `regex::Regex::new`. The default pattern compiles.
#[verifier::external_body]
fn compile(pattern: &str) -> (res: Result<Regex, regex::Error>)
    ensures
        res is Ok == compiles(pattern@),
        pattern@ == DEFAULT_SCOPE_PATTERN@ ==> res is Ok,
        res matches Ok(regex) ==> pattern_of(regex) == pattern@,
{
    Regex::new(pattern)
}

/// Calls `regex::Regex::captures` and `regex::Captures::name` with `type`. For
/// the default pattern the result is what the syntax of regular expressions says
/// of it.
#[verifier::external_body]
fn capture_type(regex: &Regex, text: &str) -> (res: Option<String>)
    ensures
        optional_text(res) == captured_type(pattern_of(*regex), text@),
        pattern_of(*regex) == DEFAULT_SCOPE_PATTERN@ ==> optional_text(res) == default_type(text@),
{
    regex.captures(text).and_then(|c| c.name("type")).map(|m| m.as_str().to_string())
}

/// Extracts credential types from scopes by a regular expression with a group
/// named `type`.
pub struct ScopeMatcher {
    pattern: Regex,
}

/// The first occurrences in a list of optional texts, in order.
pub open spec fn distinct(list: Seq<Option<Seq<char>>>) -> Seq<Seq<char>>
    decreases list.len(),
{
    if list.len() == 0 {
        Seq::empty()
    } else {
        let before = distinct(list.drop_last());
        match list.last() {
            Some(text) => if before.contains(text) {
                before
            } else {
                before.push(text)
            },
            None => before,
        }
    }
}

/// The credential types that scopes name under a pattern, each once.
pub open spec fn types_of(pattern: Seq<char>, scopes: Seq<Seq<char>>) -> Seq<Seq<char>> {
    distinct(scopes.map_values(|scope: Seq<char>| captured_type(pattern, scope)))
}

/// The credential types that scopes name under the default pattern, each once.
pub open spec fn default_types_of(scopes: Seq<Seq<char>>) -> Seq<Seq<char>> {
    distinct(scopes.map_values(|scope: Seq<char>| default_type(scope)))
}

/// The first occurrences in a list of captured types, in order.
pub fn distinct_types(captured: &Vec<Option<String>>) -> (res: Vec<String>)
    ensures
        texts(res@) == distinct(captured@.map_values(|c: Option<String>| optional_text(c))),
{
    let ghost all = captured@.map_values(|c: Option<String>| optional_text(c));
    let mut out: Vec<String> = Vec::new();
    let mut i: usize = 0;
    while i < captured.len()
        invariant
            i <= captured.len(),
            all == captured@.map_values(|c: Option<String>| optional_text(c)),
            texts(out@) == distinct(all.take(i as int)),
        decreases captured.len() - i,
    {
        proof {
            assert(all.take(i + 1).drop_last() =~= all.take(i as int));
            assert(all.take(i + 1).last() == optional_text(captured@[i as int]));
        }
        if let Some(name) = &captured[i] {
            if !contains_text(&out, name.as_str()) {
                let copy = name.clone();
                proof {
                    assert(texts(out@.push(copy)) =~= texts(out@).push(name@));
                }
                out.push(copy);
            }
        }
        i = i + 1;
    }
    proof {
        assert(all.take(i as int) =~= all);
    }
    out
}

impl ScopeMatcher {
    /// The pattern of the matcher.
    pub closed spec fn pattern(&self) -> Seq<char> {
        pattern_of(self.pattern)
    }

    pub fn new(pattern: &str) -> (res: Result<Self, regex::Error>)
        ensures
            res is Ok == compiles(pattern@),
            pattern@ == DEFAULT_SCOPE_PATTERN@ ==> res is Ok,
            res matches Ok(matcher) ==> matcher.pattern() == pattern@,
    {
        match compile(pattern) {
            Ok(regex) => Ok(ScopeMatcher { pattern: regex }),
            Err(error) => Err(error),
        }
    }

    pub fn default_pattern() -> (res: Self)
        ensures
            res.pattern() == DEFAULT_SCOPE_PATTERN@,
    {
        match compile(DEFAULT_SCOPE_PATTERN) {
            Ok(regex) => ScopeMatcher { pattern: regex },
            Err(_) => vstd::pervasive::unreached(),
        }
    }

    /// The requested credential type for one scope string, or `None` if it does
    /// not match the pattern at all: an unrecognized scope matches nothing.
    pub fn credential_type(&self, scope: &str) -> (res: Option<String>)
        ensures
            optional_text(res) == captured_type(self.pattern(), scope@),
            self.pattern() == DEFAULT_SCOPE_PATTERN@ ==> optional_text(res) == default_type(scope@),
    {
        capture_type(&self.pattern, scope)
    }

    /// Every distinct credential type named across `scopes`.
    pub fn credential_types(&self, scopes: &Vec<String>) -> (res: Vec<String>)
        ensures
            texts(res@) == types_of(self.pattern(), texts(scopes@)),
            self.pattern() == DEFAULT_SCOPE_PATTERN@ ==> texts(res@) == default_types_of(
                texts(scopes@),
            ),
    {
        let mut captured: Vec<Option<String>> = Vec::new();
        let mut i: usize = 0;
        while i < scopes.len()
            invariant
                i <= scopes.len(),
                captured@.len() == i,
                forall|k: int|
                    0 <= k < i ==> optional_text(#[trigger] captured@[k]) == captured_type(
                        self.pattern(),
                        scopes@[k]@,
                    ),
                self.pattern() == DEFAULT_SCOPE_PATTERN@ ==> forall|k: int|
                    0 <= k < i ==> optional_text(#[trigger] captured@[k]) == default_type(
                        scopes@[k]@,
                    ),
            decreases scopes.len() - i,
        {
            captured.push(self.credential_type(scopes[i].as_str()));
            i = i + 1;
        }
        proof {
            assert(captured@.map_values(|c: Option<String>| optional_text(c)) =~= texts(
                scopes@,
            ).map_values(|scope: Seq<char>| captured_type(self.pattern(), scope)));
            if self.pattern() == DEFAULT_SCOPE_PATTERN@ {
                assert(captured@.map_values(|c: Option<String>| optional_text(c)) =~= texts(
                    scopes@,
                ).map_values(|scope: Seq<char>| default_type(scope)));
            }
        }
        distinct_types(&captured)
    }
}

/// Where the run without white space at the end of a text starts.
pub open spec fn word_start(text: Seq<char>) -> int
    decreases text.len(),
{
    if text.len() == 0 || is_white(text.last()) {
        text.len() as int
    } else {
        word_start(text.drop_last())
    }
}

/// The words of a text: its longest runs without white space, in order.
pub open spec fn words(text: Seq<char>) -> Seq<Seq<char>>
    decreases text.len(),
{
    if text.len() == 0 {
        Seq::empty()
    } else if is_white(text.last()) {
        words(text.drop_last())
    } else {
        let start = word_start(text);
        if 0 <= start < text.len() {
            words(text.take(start)).push(text.skip(start))
        } else {
            Seq::empty()
        }
    }
}

/// A word's start is in the text, and nothing in the word is white space.
proof fn lemma_word_start(text: Seq<char>)
    ensures
        0 <= word_start(text) <= text.len(),
        text.len() > 0 && !is_white(text.last()) ==> word_start(text) < text.len(),
        word_start(text) > 0 ==> (word_start(text) == text.len() || is_white(
            text[word_start(text) - 1],
        )),
        forall|k: int| word_start(text) <= k < text.len() ==> !is_white(#[trigger] text[k]),
    decreases text.len(),
{
    if text.len() > 0 && !is_white(text.last()) {
        let rest = text.drop_last();
        lemma_word_start(rest);
        let start = word_start(rest);
        assert forall|k: int| start <= k < text.len() implies !is_white(#[trigger] text[k]) by {
            if k < rest.len() {
                assert(!is_white(rest[k]));
            }
        }
        if start > 0 && start == rest.len() {
            assert(rest.len() == 0 || is_white(rest.last()));
        }
    }
}

/// The start of the word that a position ends.
proof fn lemma_word_start_is(text: Seq<char>, start: int)
    requires
        0 <= start <= text.len(),
        start > 0 ==> is_white(text[start - 1]),
        forall|k: int| start <= k < text.len() ==> !is_white(#[trigger] text[k]),
    ensures
        word_start(text) == start,
    decreases text.len(),
{
    if start < text.len() {
        let rest = text.drop_last();
        assert forall|k: int| start <= k < rest.len() implies !is_white(#[trigger] rest[k]) by {
            assert(!is_white(text[k]));
        }
        assert(!is_white(text[text.len() - 1]));
        lemma_word_start_is(rest, start);
    }
}

/// Splits a space-delimited scope string into its scopes.
pub fn split_scope_string(scopes: &str) -> (res: Vec<String>)
    ensures
        texts(res@) == words(scopes@),
{
    let chars = chars_of(scopes);
    let ghost text = scopes@;
    let mut out: Vec<String> = Vec::new();
    let mut word = String::new();
    let ghost mut start: int = 0;
    let mut i: usize = 0;
    proof {
        assert(text.take(0) =~= Seq::empty());
        assert(word@ =~= text.subrange(0, 0));
    }
    while i < chars.len()
        invariant
            i <= chars.len(),
            chars@ == text,
            0 <= start <= i,
            start > 0 ==> is_white(text[start - 1]),
            forall|k: int| start <= k < i ==> !is_white(#[trigger] text[k]),
            word@ == text.subrange(start, i as int),
            texts(out@) == words(text.take(start)),
        decreases chars.len() - i,
    {
        if white(chars[i]) {
            if !word.as_str().is_empty() {
                proof {
                    lemma_last_word(text.take(i as int), start);
                    assert(text.take(i as int).take(start) =~= text.take(start));
                    assert(text.take(i as int).skip(start) =~= text.subrange(start, i as int));
                    assert(texts(out@.push(word)) =~= texts(out@).push(word@));
                }
                out.push(word);
                word = String::new();
            }
            proof {
                assert(text.take(i + 1).drop_last() =~= text.take(i as int));
                assert(text.take(i + 1).last() == text[i as int]);
                start = i + 1;
                assert(word@ =~= text.subrange(start, i + 1));
            }
        } else {
            word.push(chars[i]);
            proof {
                assert(word@ =~= text.subrange(start, i + 1));
            }
        }
        i = i + 1;
    }
    proof {
        assert(text.take(i as int) =~= text);
    }
    if !word.as_str().is_empty() {
        proof {
            lemma_last_word(text, start);
            assert(text.skip(start) =~= text.subrange(start, i as int));
            assert(texts(out@.push(word)) =~= texts(out@).push(word@));
        }
        out.push(word);
    }
    out
}

/// The words of a text that ends in a word.
proof fn lemma_last_word(text: Seq<char>, start: int)
    requires
        0 <= start < text.len(),
        start > 0 ==> is_white(text[start - 1]),
        forall|k: int| start <= k < text.len() ==> !is_white(#[trigger] text[k]),
    ensures
        words(text) == words(text.take(start)).push(text.skip(start)),
{
    lemma_word_start_is(text, start);
    assert(!is_white(text[text.len() - 1]));
}

/// The scopes with a gap before the first, between each two and after the last.
pub open spec fn spaced(gaps: Seq<Seq<char>>, scopes: Seq<Seq<char>>) -> Seq<char>
    recommends
        gaps.len() == scopes.len() + 1,
    decreases scopes.len(),
{
    if scopes.len() == 0 {
        gaps.last()
    } else {
        spaced(gaps.drop_last(), scopes.drop_last()) + scopes.last() + gaps.last()
    }
}

/// White space at the end of a text adds no word.
proof fn lemma_white_end(text: Seq<char>, gap: Seq<char>)
    requires
        forall|k: int| 0 <= k < gap.len() ==> is_white(#[trigger] gap[k]),
    ensures
        words(text + gap) == words(text),
    decreases gap.len(),
{
    if gap.len() == 0 {
        assert(text + gap =~= text);
    } else {
        assert((text + gap).last() == gap[gap.len() - 1]);
        assert((text + gap).drop_last() =~= text + gap.drop_last());
        assert forall|k: int| 0 <= k < gap.drop_last().len() implies is_white(
            #[trigger] gap.drop_last()[k],
        ) by {
            assert(is_white(gap[k]));
        }
        lemma_white_end(text, gap.drop_last());
    }
}

/// Splitting gives back the scopes, where none is empty or holds white space,
/// whatever runs of white space separate them or stand around them.
pub proof fn law_split_gives_back_spaced(gaps: Seq<Seq<char>>, scopes: Seq<Seq<char>>)
    requires
        gaps.len() == scopes.len() + 1,
        forall|i: int|
            0 <= i < scopes.len() ==> (#[trigger] scopes[i]).len() > 0 && forall|k: int|
                0 <= k < scopes[i].len() ==> !is_white(#[trigger] scopes[i][k]),
        forall|i: int|
            0 <= i < gaps.len() ==> forall|k: int|
                0 <= k < (#[trigger] gaps[i]).len() ==> is_white(#[trigger] gaps[i][k]),
        forall|i: int| 0 < i < scopes.len() ==> (#[trigger] gaps[i]).len() > 0,
    ensures
        words(spaced(gaps, scopes)) == scopes,
    decreases scopes.len(),
{
    let gap = gaps[gaps.len() - 1];
    if scopes.len() == 0 {
        lemma_white_end(Seq::empty(), gap);
        assert(Seq::<char>::empty() + gap =~= gap);
        assert(scopes =~= Seq::empty());
    } else {
        let last = scopes[scopes.len() - 1];
        let head = spaced(gaps.drop_last(), scopes.drop_last());
        let text = head + last;
        let start = head.len() as int;
        assert forall|i: int| 0 <= i < gaps.drop_last().len() implies forall|k: int|
            0 <= k < (#[trigger] gaps.drop_last()[i]).len() ==> is_white(
                #[trigger] gaps.drop_last()[i][k],
            ) by {
            assert(gaps.drop_last()[i] == gaps[i]);
        }
        assert forall|i: int| 0 < i < scopes.drop_last().len() implies (
        #[trigger] gaps.drop_last()[i]).len() > 0 by {
            assert(gaps.drop_last()[i] == gaps[i]);
        }
        law_split_gives_back_spaced(gaps.drop_last(), scopes.drop_last());
        lemma_white_end(text, gap);
        assert forall|k: int| start <= k < text.len() implies !is_white(#[trigger] text[k]) by {
            assert(text[k] == last[k - start]);
        }
        if start > 0 {
            let before = gaps.drop_last().last();
            assert(before == gaps[gaps.len() - 2]);
            assert(before.len() > 0);
            assert(head[start - 1] == before[before.len() - 1]);
            assert(text[start - 1] == head[start - 1]);
        }
        lemma_last_word(text, start);
        assert(text.take(start) =~= head);
        assert(text.skip(start) =~= last);
        assert(scopes =~= scopes.drop_last().push(last));
    }
}

/// Every word that splitting yields is not empty and holds no white space.
pub proof fn law_words_hold_no_white_space(text: Seq<char>, i: int)
    requires
        0 <= i < words(text).len(),
    ensures
        words(text)[i].len() > 0,
        forall|k: int| 0 <= k < words(text)[i].len() ==> !is_white(#[trigger] words(text)[i][k]),
    decreases text.len(),
{
    lemma_word_start(text);
    if is_white(text.last()) {
        law_words_hold_no_white_space(text.drop_last(), i);
    } else {
        let start = word_start(text);
        if i < words(text.take(start)).len() {
            law_words_hold_no_white_space(text.take(start), i);
        }
    }
}

/// The types named by scopes are distinct, and are those that some scope
/// captures.
pub proof fn law_types_are_distinct(list: Seq<Option<Seq<char>>>)
    ensures
        distinct(list).no_duplicates(),
        forall|t: Seq<char>| #[trigger] distinct(list).contains(t) <==> list.contains(Some(t)),
    decreases list.len(),
{
    if list.len() > 0 {
        let rest = list.drop_last();
        law_types_are_distinct(rest);
        assert forall|t: Seq<char>| #[trigger] distinct(list).contains(t) <==> list.contains(
            Some(t),
        ) by {
            let before = distinct(rest);
            if distinct(list).contains(t) {
                if before.contains(t) {
                    let k = choose|k: int| 0 <= k < rest.len() && rest[k] == Some(t);
                    assert(list[k] == Some(t));
                } else {
                    assert(list.last() == Some(t));
                    assert(list[list.len() - 1] == Some(t));
                }
            }
            if list.contains(Some(t)) {
                let k = choose|k: int| 0 <= k < list.len() && list[k] == Some(t);
                if k < rest.len() {
                    assert(rest[k] == Some(t));
                    assert(rest.contains(Some(t)));
                    assert(before.contains(t));
                    let m = choose|m: int| 0 <= m < before.len() && before[m] == t;
                    assert(distinct(list)[m] == t);
                } else if !before.contains(t) {
                    assert(distinct(list)[before.len() as int] == t);
                }
            }
        }
    }
}

/// The first colon after a run without one.
proof fn lemma_colon_from(text: Seq<char>, i: int, end: int)
    requires
        0 <= i <= end <= text.len(),
        forall|k: int| i <= k < end ==> #[trigger] text[k] != ':',
        end < text.len() ==> text[end] == ':',
    ensures
        colon_from(text, i) == end,
    decreases end - i,
{
    if i < end {
        lemma_colon_from(text, i + 1, end);
    }
}

/// Under the default pattern, a scope made of the prefix, a type without a colon
/// and perhaps a colon and a suffix names that type.
pub proof fn law_default_scope_names_its_type(name: Seq<char>, suffix: Option<Seq<char>>)
    requires
        name.len() > 0,
        forall|k: int| 0 <= k < name.len() ==> #[trigger] name[k] != ':',
    ensures
        default_type(
            DEFAULT_SCOPE_PREFIX@ + name + match suffix {
                Some(rest) => seq![':'] + rest,
                None => Seq::empty(),
            },
        ) == Some(name),
{
    let tail = match suffix {
        Some(rest) => seq![':'] + rest,
        None => Seq::empty(),
    };
    let text = DEFAULT_SCOPE_PREFIX@ + name + tail;
    let start = DEFAULT_SCOPE_PREFIX@.len() as int;
    let end = start + name.len();
    assert(text.subrange(0, start) =~= DEFAULT_SCOPE_PREFIX@);
    assert(text[start] == name[0]);
    assert(default_matches_at(text, 0));
    assert forall|k: int| start <= k < end implies #[trigger] text[k] != ':' by {
        assert(text[k] == name[k - start]);
    }
    if end < text.len() {
        assert(text[end] == tail[0]);
    }
    lemma_colon_from(text, start, end);
    assert(text.subrange(start, end) =~= name);
}

/// Types are listed in the order in which they are first named: one more scope
/// adds its type at the end, unless it names none or one that is listed.
pub proof fn law_types_are_listed_as_they_come(list: Seq<Option<Seq<char>>>, t: Seq<char>)
    ensures
        distinct(Seq::empty()) == Seq::<Seq<char>>::empty(),
        distinct(list.push(None)) == distinct(list),
        list.contains(Some(t)) ==> distinct(list.push(Some(t))) == distinct(list),
        !list.contains(Some(t)) ==> distinct(list.push(Some(t))) == distinct(list).push(t),
{
    law_types_are_distinct(list);
    assert(list.push(None).drop_last() =~= list);
    assert(list.push(Some(t)).drop_last() =~= list);
    assert(distinct(list).contains(t) <==> list.contains(Some(t)));
}

/// A type is named by scopes exactly where the pattern captures it in one of
/// them, and it is listed once.
pub proof fn law_types_are_those_captured(pattern: Seq<char>, scopes: Seq<Seq<char>>, t: Seq<char>)
    ensures
        types_of(pattern, scopes).no_duplicates(),
        types_of(pattern, scopes).contains(t) <==> exists|i: int|
            0 <= i < scopes.len() && captured_type(pattern, #[trigger] scopes[i]) == Some(t),
        default_types_of(scopes).no_duplicates(),
        default_types_of(scopes).contains(t) <==> exists|i: int|
            0 <= i < scopes.len() && default_type(#[trigger] scopes[i]) == Some(t),
{
    let captured = scopes.map_values(|scope: Seq<char>| captured_type(pattern, scope));
    let spelled = scopes.map_values(|scope: Seq<char>| default_type(scope));
    law_types_are_distinct(captured);
    law_types_are_distinct(spelled);
    assert(types_of(pattern, scopes) == distinct(captured));
    assert(default_types_of(scopes) == distinct(spelled));
    if captured.contains(Some(t)) {
        let i = choose|i: int| 0 <= i < captured.len() && captured[i] == Some(t);
        assert(captured_type(pattern, scopes[i]) == Some(t));
    }
    if exists|i: int| 0 <= i < scopes.len() && captured_type(pattern, #[trigger] scopes[i]) == Some(
        t,
    ) {
        let i = choose|i: int|
            0 <= i < scopes.len() && captured_type(pattern, #[trigger] scopes[i]) == Some(t);
        assert(captured[i] == Some(t));
    }
    if spelled.contains(Some(t)) {
        let i = choose|i: int| 0 <= i < spelled.len() && spelled[i] == Some(t);
        assert(default_type(scopes[i]) == Some(t));
    }
    if exists|i: int| 0 <= i < scopes.len() && default_type(#[trigger] scopes[i]) == Some(t) {
        let i = choose|i: int| 0 <= i < scopes.len() && default_type(#[trigger] scopes[i]) == Some(t);
        assert(spelled[i] == Some(t));
    }
}

/// Whether a text names a type at a position, in the form of the default pattern.
pub open spec fn names_a_type_at(text: Seq<char>, i: int) -> bool {
    &&& 0 <= i
    &&& i + 31 < text.len()
    &&& text.subrange(i, i + 31) == "org.eclipse.dspace.dcp.vc.type:"@
    &&& text[i + 31] != ':'
}

proof fn lemma_default_match(text: Seq<char>, from: int)
    requires
        0 <= from,
    ensures
        default_match(text, from) is None <==> forall|i: int|
            from <= i ==> !#[trigger] names_a_type_at(text, i),
        default_match(text, from) matches Some(at) ==> from <= at && names_a_type_at(text, at)
            && forall|i: int| from <= i < at ==> !#[trigger] names_a_type_at(text, i),
    decreases text.len() - from,
{
    reveal_strlit("org.eclipse.dspace.dcp.vc.type:");
    assert(default_matches_at(text, from) == names_a_type_at(text, from));
    if from < text.len() && !default_matches_at(text, from) {
        lemma_default_match(text, from + 1);
        assert forall|i: int| from <= i implies (!#[trigger] names_a_type_at(text, i) || from + 1
            <= i) by {}
    }
}

/// Under the default pattern a scope names a type exactly where it holds the
/// prefix with another character than a colon behind it; and the type is what
/// stands behind the first such prefix, up to the next colon or the end.
pub proof fn law_default_type_follows_the_first_prefix(text: Seq<char>)
    ensures
        default_type(text) is Some <==> exists|i: int| #[trigger] names_a_type_at(text, i),
        default_type(text) matches Some(t) ==> {
            &&& t.len() > 0
            &&& forall|k: int| 0 <= k < t.len() ==> #[trigger] t[k] != ':'
            &&& exists|i: int|
                {
                    &&& #[trigger] names_a_type_at(text, i)
                    &&& forall|j: int| 0 <= j < i ==> !#[trigger] names_a_type_at(text, j)
                    &&& i + 31 + t.len() <= text.len()
                    &&& t == text.subrange(i + 31, i + 31 + t.len())
                    &&& i + 31 + t.len() < text.len() ==> text[i + 31 + t.len() as int] == ':'
                }
        },
{
    reveal_strlit("org.eclipse.dspace.dcp.vc.type:");
    lemma_default_match(text, 0);
    match default_match(text, 0) {
        Some(i) => {
            assert(names_a_type_at(text, i));
            let start = i + 31;
            let end = colon_from(text, start);
            lemma_colon_is_next(text, start);
            let t = default_type(text)->0;
            assert(t == text.subrange(start, end));
            assert(t =~= text.subrange(i + 31, i + 31 + t.len()));
            assert forall|k: int| 0 <= k < t.len() implies #[trigger] t[k] != ':' by {
                assert(text[start + k] != ':');
            }
        },
        None => {
            assert forall|i: int| !#[trigger] names_a_type_at(text, i) by {}
        },
    }
}

/// The next colon ends the longest run without one.
proof fn lemma_colon_is_next(text: Seq<char>, i: int)
    requires
        0 <= i <= text.len(),
    ensures
        i <= colon_from(text, i) <= text.len(),
        forall|k: int| i <= k < colon_from(text, i) ==> #[trigger] text[k] != ':',
        colon_from(text, i) < text.len() ==> text[colon_from(text, i)] == ':',
        i < text.len() && text[i] != ':' ==> i < colon_from(text, i),
    decreases text.len() - i,
{
    if i < text.len() && text[i] != ':' {
        lemma_colon_is_next(text, i + 1);
    }
}

/// What stands before the first colon of a text, or all of it where there is
/// none.
pub proof fn law_the_first_colon_ends_a_part(part: Seq<char>, rest: Seq<char>)
    requires
        forall|k: int| 0 <= k < part.len() ==> #[trigger] part[k] != ':',
    ensures
        part.take(colon_from(part, 0)) == part,
        (part + seq![':'] + rest).take(colon_from(part + seq![':'] + rest, 0)) == part,
{
    let text = part + seq![':'] + rest;
    lemma_colon_from(part, 0, part.len() as int);
    assert forall|k: int| 0 <= k < part.len() implies #[trigger] text[k] != ':' by {
        assert(text[k] == part[k]);
    }
    assert(text[part.len() as int] == ':');
    lemma_colon_from(text, 0, part.len() as int);
    assert(part.take(part.len() as int) =~= part);
    assert(text.take(part.len() as int) =~= part);
}

/// The pattern that is used unless another one is configured.
pub proof fn law_default_pattern()
    ensures
        DEFAULT_SCOPE_PATTERN@
            == "org[.]eclipse[.]dspace[.]dcp[.]vc[.]type:(?P<type>[^:]+)(?P<suffix>:.+)?"@,
        DEFAULT_SCOPE_PREFIX@ == "org.eclipse.dspace.dcp.vc.type:"@,
{
}

} // verus!
