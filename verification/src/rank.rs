//! Scoring of catalog entries against a query.

use crate::model::CommandEntry;
use crate::text::{
    chars_of, chars_of_each, contains_text, has_text, join_chars, joined, rows, same_chars,
    split_tokens, string_of, tokens, unicode_lowercase, views, CharClass,
};
use fuzzy_matcher::skim::SkimMatcherV2;
use fuzzy_matcher::FuzzyMatcher;
use vstd::prelude::*;

verus! {

/// The score that the skim matcher, as `SkimMatcherV2::default()` builds it,
/// gives to `pattern` inside `choice`; `None` where it finds no match.
pub uninterp spec fn skim_score(choice: Seq<char>, pattern: Seq<char>) -> Option<i64>;

/// Texts longer than this many characters are not handed to the fuzzy matcher.
pub const FUZZY_TEXT_LIMIT: usize = 0x1_0000;

/// `SkimMatcherV2::fuzzy_match` (trait `FuzzyMatcher`) on a matcher made by
/// `SkimMatcherV2::default()`. With that fixed configuration the score is
/// computed from the two texts alone; it is named `skim_score`. The length
/// bound keeps the matcher's 32-bit score cells far from overflow.
#[verifier::external_body]
fn skim_fuzzy_match(choice: &str, pattern: &str) -> (r: Option<i64>)
    requires
        choice@.len() <= FUZZY_TEXT_LIMIT,
        pattern@.len() <= FUZZY_TEXT_LIMIT,
    ensures
        r == skim_score(choice@, pattern@),
{
    SkimMatcherV2::default().fuzzy_match(choice, pattern)
}

/// The fuzzy score of `pattern` in `choice`, 0 where the matcher finds no
/// match or a text is over the length limit.
pub open spec fn fuzzy_score(choice: Seq<char>, pattern: Seq<char>) -> i64 {
    if choice.len() <= FUZZY_TEXT_LIMIT && pattern.len() <= FUZZY_TEXT_LIMIT {
        match skim_score(choice, pattern) {
            Some(score) => score,
            None => 0,
        }
    } else {
        0
    }
}

/// Runs the fuzzy matcher where both texts are within the length limit.
pub fn fuzzy_match_score(choice: &Vec<char>, pattern: &Vec<char>) -> (r: i64)
    ensures
        r == fuzzy_score(choice@, pattern@),
{
    if choice.len() <= FUZZY_TEXT_LIMIT && pattern.len() <= FUZZY_TEXT_LIMIT {
        let c = string_of(choice);
        let p = string_of(pattern);
        match skim_fuzzy_match(c.as_str(), p.as_str()) {
            Some(score) => score,
            None => 0,
        }
    } else {
        0
    }
}

// ---------------------------------------------------------------------------
// Terms
// ---------------------------------------------------------------------------

/// The lowercase alphanumeric runs of `raw`.
pub open spec fn match_tokens(raw: Seq<char>) -> Seq<Seq<char>> {
    let runs = tokens(raw, CharClass::NotAlphanumeric);
    Seq::new(runs.len(), |i: int| unicode_lowercase(runs[i]))
}

/// Splits a text into its lowercase alphanumeric runs.
pub fn match_tokens_of(raw: &Vec<char>) -> (out: Vec<Vec<char>>)
    ensures
        rows(out@) == match_tokens(raw@),
{
    let runs = split_tokens(raw, CharClass::NotAlphanumeric);
    let mut out: Vec<Vec<char>> = Vec::new();
    let mut i: usize = 0;
    while i < runs.len()
        invariant
            i <= runs.len(),
            out.len() == i,
            rows(runs@) == tokens(raw@, CharClass::NotAlphanumeric),
            forall|j: int| 0 <= j < i ==> (#[trigger] out@[j])@ == unicode_lowercase(runs@[j]@),
        decreases runs.len() - i,
    {
        let run = string_of(&runs[i]);
        let lower = run.as_str().to_lowercase();
        out.push(chars_of(lower.as_str()));
        i += 1;
    }
    assert(rows(out@) =~= match_tokens(raw@)) by {
        assert forall|j: int| 0 <= j < out.len() implies rows(out@)[j] == match_tokens(raw@)[j] by {
            assert(rows(runs@)[j] == runs@[j]@);
        }
    }
    out
}

/// Splits a text into its lowercase alphanumeric runs.
pub fn tokenize_for_match(raw: &str) -> (out: Vec<String>)
    ensures
        views(out@) == match_tokens(raw@),
{
    let chars = chars_of(raw);
    let parts = match_tokens_of(&chars);
    crate::text::strings_of(&parts)
}

/// 2 where the token is the term, 1 where the term is a part of it, else 0.
pub open spec fn match_quality(token: Seq<char>, term: Seq<char>) -> int {
    if token == term {
        2
    } else if contains_text(token, term) {
        1
    } else {
        0
    }
}

/// How well a token matches a term.
pub fn quality_of(token: &Vec<char>, term: &Vec<char>) -> (q: i64)
    ensures
        q == match_quality(token@, term@),
{
    if same_chars(token, term) {
        2
    } else if has_text(token, term) {
        1
    } else {
        0
    }
}

/// How well a token matches a term.
pub fn token_match_quality(token: &str, term: &str) -> (q: i64)
    ensures
        q == match_quality(token@, term@),
{
    let a = chars_of(token);
    let b = chars_of(term);
    quality_of(&a, &b)
}

/// The quality of the best match of `term` among `names`.
pub open spec fn best_quality(names: Seq<Seq<char>>, term: Seq<char>) -> int {
    if exists|i: int| 0 <= i < names.len() && match_quality(#[trigger] names[i], term) == 2 {
        2
    } else if exists|i: int| 0 <= i < names.len() && match_quality(#[trigger] names[i], term) == 1 {
        1
    } else {
        0
    }
}

/// The quality of the best match of a term among the tokens.
pub fn best_quality_of(names: &Vec<Vec<char>>, term: &Vec<char>) -> (q: i64)
    ensures
        q == best_quality(rows(names@), term@),
{
    let mut best: i64 = 0;
    let mut i: usize = 0;
    while i < names.len()
        invariant
            i <= names.len(),
            0 <= best <= 2,
            best == best_quality(rows(names@).take(i as int), term@),
        decreases names.len() - i,
    {
        let q = quality_of(&names[i], term);
        proof {
            let prev = rows(names@).take(i as int);
            let next = rows(names@).take(i + 1);
            assert(next[i as int] == names@[i as int]@);
            assert forall|j: int| 0 <= j < i implies #[trigger] next[j] == prev[j] by {}
            if best_quality(prev, term@) == 2 {
                let w = choose|j: int| 0 <= j < prev.len() && match_quality(#[trigger] prev[j], term@) == 2;
                assert(match_quality(next[w], term@) == 2);
            } else if best_quality(prev, term@) == 1 {
                let w = choose|j: int| 0 <= j < prev.len() && match_quality(#[trigger] prev[j], term@) == 1;
                assert(match_quality(next[w], term@) == 1);
            }
            if best_quality(next, term@) == 2 && q != 2 {
                let w = choose|j: int| 0 <= j < next.len() && match_quality(#[trigger] next[j], term@) == 2;
                assert(w < i);
                assert(match_quality(prev[w], term@) == 2);
            }
            if best_quality(next, term@) >= 1 && q == 0 && best_quality(prev, term@) == 0 {
                if best_quality(next, term@) == 1 {
                    let w = choose|j: int| 0 <= j < next.len() && match_quality(#[trigger] next[j], term@) == 1;
                    assert(w < i);
                    assert(match_quality(prev[w], term@) == 1);
                }
            }
        }
        if q > best {
            best = q;
        }
        i += 1;
    }
    assert(rows(names@).take(names.len() as int) == rows(names@));
    best
}

/// Whether the terms match name tokens from left to right, each term taking
/// the first token after the one before it that it matches. Gaps are allowed.
pub open spec fn ordered_match(names: Seq<Seq<char>>, terms: Seq<Seq<char>>) -> bool
    decreases names.len(),
{
    if terms.len() == 0 {
        true
    } else if names.len() == 0 {
        false
    } else if match_quality(names[0], terms[0]) > 0 {
        ordered_match(names.drop_first(), terms.drop_first())
    } else {
        ordered_match(names.drop_first(), terms)
    }
}

/// Whether there is at least one term and the terms match in query order.
pub open spec fn in_order(names: Seq<Seq<char>>, terms: Seq<Seq<char>>) -> bool {
    terms.len() > 0 && ordered_match(names, terms)
}

/// Whether the terms match name tokens in query order.
pub fn in_order_of(names: &Vec<Vec<char>>, terms: &Vec<Vec<char>>) -> (r: bool)
    ensures
        r == in_order(rows(names@), rows(terms@)),
{
    if terms.len() == 0 {
        return false;
    }
    let mut cursor: usize = 0;
    let mut t: usize = 0;
    assert(rows(names@).skip(0) == rows(names@));
    assert(rows(terms@).skip(0) == rows(terms@));
    while t < terms.len() && cursor < names.len()
        invariant
            cursor <= names.len(),
            t <= terms.len(),
            ordered_match(rows(names@), rows(terms@)) == ordered_match(
                rows(names@).skip(cursor as int),
                rows(terms@).skip(t as int),
            ),
        decreases names.len() - cursor,
    {
        let ghost ns = rows(names@).skip(cursor as int);
        let ghost ts = rows(terms@).skip(t as int);
        assert(ns[0] == names@[cursor as int]@);
        assert(ts[0] == terms@[t as int]@);
        assert(ns.drop_first() == rows(names@).skip(cursor + 1));
        assert(ts.drop_first() == rows(terms@).skip(t + 1));
        if quality_of(&names[cursor], &terms[t]) > 0 {
            t += 1;
        }
        cursor += 1;
    }
    t == terms.len()
}

/// Whether the terms match name tokens in query order.
pub fn terms_in_order(name_terms: &Vec<String>, query_terms: &Vec<String>) -> (r: bool)
    ensures
        r == in_order(views(name_terms@), views(query_terms@)),
{
    let names = chars_of_each(name_terms);
    let terms = chars_of_each(query_terms);
    in_order_of(&names, &terms)
}

/// Whether every term matches the token at `start` plus its own position.
pub open spec fn run_at(names: Seq<Seq<char>>, terms: Seq<Seq<char>>, start: int) -> bool {
    &&& 0 <= start
    &&& start + terms.len() <= names.len()
    &&& forall|k: int|
        0 <= k < terms.len() ==> match_quality(names[start + k], #[trigger] terms[k]) > 0
}

/// Whether there is at least one term and the terms match a contiguous run
/// of name tokens.
pub open spec fn contiguous(names: Seq<Seq<char>>, terms: Seq<Seq<char>>) -> bool {
    terms.len() > 0 && exists|start: int| run_at(names, terms, start)
}

fn run_at_of(names: &Vec<Vec<char>>, terms: &Vec<Vec<char>>, start: usize) -> (r: bool)
    requires
        start + terms.len() <= names.len(),
    ensures
        r == run_at(rows(names@), rows(terms@), start as int),
{
    let mut k: usize = 0;
    while k < terms.len()
        invariant
            k <= terms.len(),
            start + terms.len() <= names.len(),
            forall|j: int|
                0 <= j < k ==> match_quality(
                    rows(names@)[start + j],
                    #[trigger] rows(terms@)[j],
                ) > 0,
        decreases terms.len() - k,
    {
        assert(rows(names@)[start + k] == names@[start + k]@);
        assert(rows(terms@)[k as int] == terms@[k as int]@);
        if quality_of(&names[start + k], &terms[k]) == 0 {
            return false;
        }
        k += 1;
    }
    true
}

/// Whether the terms match a contiguous run of name tokens.
pub fn contiguous_of(names: &Vec<Vec<char>>, terms: &Vec<Vec<char>>) -> (r: bool)
    ensures
        r == contiguous(rows(names@), rows(terms@)),
{
    if terms.len() == 0 || terms.len() > names.len() {
        return false;
    }
    let last: usize = names.len() - terms.len();
    let mut start: usize = 0;
    loop
        invariant
            start <= last,
            last == names.len() - terms.len(),
            terms.len() > 0,
            forall|s: int| 0 <= s < start ==> !run_at(rows(names@), rows(terms@), s),
        decreases last - start,
    {
        if run_at_of(names, terms, start) {
            return true;
        }
        if start == last {
            return false;
        }
        start += 1;
    }
}

/// Whether the terms match a contiguous run of name tokens.
pub fn terms_contiguous(name_terms: &Vec<String>, query_terms: &Vec<String>) -> (r: bool)
    ensures
        r == contiguous(views(name_terms@), views(query_terms@)),
{
    let names = chars_of_each(name_terms);
    let terms = chars_of_each(query_terms);
    contiguous_of(&names, &terms)
}

// ---------------------------------------------------------------------------
// The composite score
// ---------------------------------------------------------------------------

/// How many of the terms have a best match of quality `quality` in `names`.
pub open spec fn name_hits(names: Seq<Seq<char>>, terms: Seq<Seq<char>>, quality: int) -> nat
    decreases terms.len(),
{
    if terms.len() == 0 {
        0
    } else {
        name_hits(names, terms.drop_last(), quality) + if best_quality(names, terms.last())
            == quality {
            1nat
        } else {
            0nat
        }
    }
}

/// How many of the terms match no name token but some token of the haystack.
pub open spec fn description_hits(
    names: Seq<Seq<char>>,
    hay: Seq<Seq<char>>,
    terms: Seq<Seq<char>>,
) -> nat
    decreases terms.len(),
{
    if terms.len() == 0 {
        0
    } else {
        description_hits(names, hay, terms.drop_last()) + if best_quality(names, terms.last()) == 0
            && best_quality(hay, terms.last()) > 0 {
            1nat
        } else {
            0nat
        }
    }
}

/// The text that a command is matched against: its lowercase name, then a
/// space and its lowercase description where it has one.
pub open spec fn haystack(name: Seq<char>, description: Option<Seq<char>>) -> Seq<char> {
    match description {
        Some(d) => unicode_lowercase(name) + seq![' '] + unicode_lowercase(d),
        None => unicode_lowercase(name),
    }
}

/// The number held within 64 bits: the nearest that fits.
pub open spec fn clamp_i64(v: int) -> i64 {
    if v > i64::MAX {
        i64::MAX
    } else if v < i64::MIN {
        i64::MIN
    } else {
        v as i64
    }
}

/// The points of a bonus that applies or does not.
pub open spec fn flag(b: bool, points: int) -> int {
    if b {
        points
    } else {
        0
    }
}

/// The composite score before clamping to 64 bits.
pub open spec fn composite(
    fuzzy: i64,
    name: Seq<char>,
    description: Option<Seq<char>>,
    terms: Seq<Seq<char>>,
) -> int {
    let names = match_tokens(name);
    let hay = match_tokens(haystack(name, description));
    let exact = name_hits(names, terms, 2);
    let partial = name_hits(names, terms, 1);
    let described = description_hits(names, hay, terms);
    let phrase = joined(terms, seq![' ']);
    fuzzy * 10 + exact * 12000 + partial * 6000 + (exact + partial + described) * 10000 + described
        * 2500 + flag(exact + partial == terms.len(), 35000) + flag(in_order(names, terms), 10000)
        + flag(contiguous(names, terms), 10000) + flag(
        phrase.len() > 0 && contains_text(joined(names, seq![' ']), phrase),
        15000,
    )
}

/// Whether a term matches some token of the name or of the description.
pub open spec fn covered(name: Seq<char>, description: Option<Seq<char>>, terms: Seq<Seq<char>>) -> bool {
    let names = match_tokens(name);
    let hay = match_tokens(haystack(name, description));
    name_hits(names, terms, 2) + name_hits(names, terms, 1) + description_hits(names, hay, terms)
        > 0
}

/// The total and the raw fuzzy score of a candidate, or `None` where it is
/// left out: the fuzzy score is 0 and no term is covered. Without terms the
/// total is ten times the fuzzy score and nothing is left out.
pub open spec fn scored(
    fuzzy: i64,
    name: Seq<char>,
    description: Option<Seq<char>>,
    terms: Seq<Seq<char>>,
) -> Option<(i64, i64)> {
    if terms.len() == 0 {
        Some((clamp_i64(fuzzy * 10), fuzzy))
    } else if fuzzy == 0 && !covered(name, description, terms) {
        None
    } else {
        Some((clamp_i64(composite(fuzzy, name, description, terms)), fuzzy))
    }
}

#[derive(Debug)]
pub struct MatchScore {
    pub total: i64,
    pub fuzzy: i64,
}

/// A score as total and fuzzy score.
pub open spec fn score_view(score: Option<MatchScore>) -> Option<(i64, i64)> {
    match score {
        Some(s) => Some((s.total, s.fuzzy)),
        None => None,
    }
}

/// The text of a string that may be missing.
pub open spec fn text_of(s: Option<String>) -> Option<Seq<char>> {
    match s {
        Some(t) => Some(t@),
        None => None,
    }
}

/// Holds a number within 64 bits.
pub fn clamp_to_i64(v: i128) -> (r: i64)
    ensures
        r == clamp_i64(v as int),
{
    if v > i64::MAX as i128 {
        i64::MAX
    } else if v < i64::MIN as i128 {
        i64::MIN
    } else {
        v as i64
    }
}

/// The lowercase haystack of a command, as characters.
pub fn haystack_of(name: &str, description: &Option<String>) -> (out: Vec<char>)
    ensures
        out@ == haystack(name@, text_of(*description)),
{
    let lower = name.to_lowercase();
    let mut out = chars_of(lower.as_str());
    match description {
        Some(d) => {
            out.push(' ');
            let dl = d.as_str().to_lowercase();
            let tail = chars_of(dl.as_str());
            crate::text::append_chars(&mut out, &tail);
            assert(out@ =~= unicode_lowercase(name@) + seq![' '] + unicode_lowercase(d@));
        },
        None => {},
    }
    out
}

/// Scores a command for which the fuzzy matcher gave `fuzzy`.
pub fn score_with_fuzzy(fuzzy: i64, query_terms: &Vec<String>, command: &CommandEntry) -> (r: Option<
    MatchScore,
>)
    ensures
        score_view(r) == scored(
            fuzzy,
            command.name@,
            text_of(command.description),
            views(query_terms@),
        ),
{
    let ghost gname = command.name@;
    let ghost gdesc = text_of(command.description);
    let ghost gterms = views(query_terms@);
    if query_terms.len() == 0 {
        return Some(MatchScore { total: clamp_to_i64(fuzzy as i128 * 10), fuzzy });
    }
    let terms = chars_of_each(query_terms);
    let name_chars = chars_of(command.name.as_str());
    let names = match_tokens_of(&name_chars);
    let hay_chars = haystack_of(command.name.as_str(), &command.description);
    let hay = match_tokens_of(&hay_chars);

    let mut exact: usize = 0;
    let mut partial: usize = 0;
    let mut described: usize = 0;
    let mut i: usize = 0;
    while i < terms.len()
        invariant
            i <= terms.len(),
            rows(terms@) == gterms,
            rows(names@) == match_tokens(gname),
            rows(hay@) == match_tokens(haystack(gname, gdesc)),
            exact == name_hits(rows(names@), gterms.take(i as int), 2),
            partial == name_hits(rows(names@), gterms.take(i as int), 1),
            described == description_hits(rows(names@), rows(hay@), gterms.take(i as int)),
            exact + partial + described <= i,
        decreases terms.len() - i,
    {
        proof {
            let next = gterms.take(i + 1);
            assert(next.drop_last() == gterms.take(i as int));
            assert(next.last() == terms@[i as int]@);
        }
        let q = best_quality_of(&names, &terms[i]);
        if q == 2 {
            exact += 1;
        } else if q == 1 {
            partial += 1;
        } else if best_quality_of(&hay, &terms[i]) > 0 {
            described += 1;
        }
        i += 1;
    }
    assert(gterms.take(terms.len() as int) == gterms);
    let coverage: usize = exact + partial + described;
    if fuzzy == 0 && coverage == 0 {
        return None;
    }
    let all_in_name = exact + partial == terms.len();
    let ordered = in_order_of(&names, &terms);
    let adjacent = contiguous_of(&names, &terms);
    let space: Vec<char> = vec![' '];
    assert(space@ =~= seq![' ']);
    let phrase = join_chars(&terms, &space);
    let name_phrase = join_chars(&names, &space);
    let phrase_match = phrase.len() > 0 && has_text(&name_phrase, &phrase);

    let mut total: i128 = fuzzy as i128 * 10;
    total = total + exact as i128 * 12000;
    total = total + partial as i128 * 6000;
    total = total + coverage as i128 * 10000;
    total = total + described as i128 * 2500;
    if all_in_name {
        total = total + 35000;
    }
    if ordered {
        total = total + 10000;
    }
    if adjacent {
        total = total + 10000;
    }
    if phrase_match {
        total = total + 15000;
    }
    assert(total == composite(fuzzy, gname, gdesc, gterms));
    Some(MatchScore { total: clamp_to_i64(total), fuzzy })
}

/// Scores a command against a query: the fuzzy matcher compares the lowercase
/// query with the command's haystack, and the terms decide the rest.
pub fn score_command_match(query: &str, query_terms: &Vec<String>, command: &CommandEntry) -> (r:
    Option<MatchScore>)
    ensures
        score_view(r) == scored(
            fuzzy_score(
                haystack(command.name@, text_of(command.description)),
                unicode_lowercase(query@),
            ),
            command.name@,
            text_of(command.description),
            views(query_terms@),
        ),
{
    let hay = haystack_of(command.name.as_str(), &command.description);
    let lower = query.to_lowercase();
    let pattern = chars_of(lower.as_str());
    let fuzzy = fuzzy_match_score(&hay, &pattern);
    score_with_fuzzy(fuzzy, query_terms, command)
}

} // verus!
