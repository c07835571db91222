//! What holds of the library as a whole: laws that relate several of its
//! functions, each stated over the specifications that the functions'
//! own contracts use.

use crate::ansi::{
    ansi_segments, escape, flushed, is_sgr, scanned, sequence_end, sgr_applied, Color, TextStyle,
};
use crate::app::{asked, prompt_key, prompt_step, refreshed, AppState, Mode, UiAction};
use crate::input::Key;
use crate::text::trimmed;
use crate::model::CommandEntry;
use crate::rank::clamp_i64;
use crate::search::{
    alias_target, command_key, command_keys, command_results, has_alias,
    has_selector, inserted, internal_keys, is_internal, ordered,
    precedes, same_ignoring_ascii_case, search_results, selection, selector_alias, unaliased_names,
    RankKey, RankingSettings, SearchItem, INTERNAL_COMMANDS,
};
use crate::session::{
    log_pushed, overflow_after_push, scroll_after_push, ChatLineKind, MAX_CHAT_LINES,
};
use crate::text::{
    ascii_lowercase, lemma_lex_asymmetric, lemma_lex_irreflexive, lemma_lex_total,
    lemma_lex_transitive, lex_lt, };
use vstd::prelude::*;

verus! {

// ---------------------------------------------------------------------------
// Filtering
// ---------------------------------------------------------------------------

/// Filtering is idempotent: computing the results again on a state whose
/// results were just computed changes nothing.
pub proof fn lemma_refresh_idempotent(s0: AppState, s1: AppState, s2: AppState)
    requires
        refreshed(s0, s1),
        refreshed(s1, s2),
    ensures
        s2.filtered@ == s1.filtered@,
        s2.selected == s1.selected,
        s2.query == s1.query,
        s2.commands == s1.commands,
{
}

/// The same query on the same catalog, aliases, usage counts and settings
/// gives the same results in the same order, whatever else differs between
/// two states.
pub proof fn lemma_same_inputs_same_results(a0: AppState, a1: AppState, b0: AppState, b1: AppState)
    requires
        refreshed(a0, a1),
        refreshed(b0, b1),
        a0.commands@ == b0.commands@,
        a0.query@ == b0.query@,
        a0.provider_aliases@ == b0.provider_aliases@,
        a0.usage_counts@ == b0.usage_counts@,
        a0.ranking == b0.ranking,
    ensures
        a1.filtered@ == b1.filtered@,
{
}

// ---------------------------------------------------------------------------
// The order of the results
// ---------------------------------------------------------------------------

/// No candidate comes strictly before itself.
pub proof fn lemma_precedes_irreflexive(a: RankKey)
    ensures
        !precedes(a, a),
{
    lemma_lex_irreflexive(a.name);
}

/// Of two candidates at most one comes strictly before the other.
pub proof fn lemma_precedes_asymmetric(a: RankKey, b: RankKey)
    requires
        precedes(a, b),
    ensures
        !precedes(b, a),
{
    if a.total == b.total && a.fuzzy == b.fuzzy {
        lemma_lex_asymmetric(a.name, b.name);
    }
}

/// Where `a` comes before `c`, any `b` comes after `a` or before `c`.
pub proof fn lemma_precedes_splits(a: RankKey, b: RankKey, c: RankKey)
    requires
        precedes(a, c),
    ensures
        precedes(a, b) || precedes(b, c),
{
    if a.total == b.total && b.total == c.total && a.fuzzy == b.fuzzy && b.fuzzy == c.fuzzy {
        lemma_lex_total(a.name, b.name);
        if lex_lt(b.name, a.name) {
            lemma_lex_transitive(b.name, a.name, c.name);
        }
    }
}

/// Whether no element comes strictly before one that stands in front of it.
pub open spec fn in_rank_order(s: Seq<RankKey>) -> bool {
    forall|i: int, j: int| 0 <= i < j < s.len() ==> !precedes(#[trigger] s[j], #[trigger] s[i])
}

/// The elements that follow index `pos` all come strictly after `x`, and
/// none of those up to it does.
spec fn split_at(s: Seq<RankKey>, x: RankKey, pos: int) -> bool {
    &&& 0 <= pos <= s.len()
    &&& forall|j: int| pos <= j < s.len() ==> precedes(x, #[trigger] s[j])
    &&& pos == 0 || !precedes(x, s[pos - 1])
}

proof fn lemma_split_exists(s: Seq<RankKey>, x: RankKey) -> (pos: int)
    ensures
        split_at(s, x, pos),
        inserted(s, x) == s.insert(pos, x),
    decreases s.len(),
{
    if s.len() > 0 && precedes(x, s.last()) {
        let front = s.drop_last();
        let pos = lemma_split_exists(front, x);
        assert forall|j: int| pos <= j < s.len() implies precedes(x, #[trigger] s[j]) by {
            if j < front.len() {
                assert(s[j] == front[j]);
            }
        }
        if pos > 0 {
            assert(s[pos - 1] == front[pos - 1]);
        }
        crate::search::lemma_inserted_at(s, x, pos);
        pos
    } else {
        crate::search::lemma_inserted_at(s, x, s.len() as int);
        s.len() as int
    }
}

/// Adding a candidate to results that are in order leaves them in order.
pub proof fn lemma_inserted_in_order(s: Seq<RankKey>, x: RankKey)
    requires
        in_rank_order(s),
    ensures
        in_rank_order(inserted(s, x)),
{
    let pos = lemma_split_exists(s, x);
    let t = s.insert(pos, x);
    assert forall|i: int, j: int| 0 <= i < j < t.len() implies !precedes(
        #[trigger] t[j],
        #[trigger] t[i],
    ) by {
        if j < pos {
            assert(t[i] == s[i] && t[j] == s[j]);
        } else if j == pos {
            // t[j] is x, t[i] stands at or before pos - 1
            assert(t[i] == s[i]);
            if precedes(x, s[i]) {
                lemma_precedes_splits(x, s[pos - 1], s[i]);
                if i < pos - 1 {
                    assert(!precedes(s[pos - 1], s[i]));
                }
            }
        } else if i == pos {
            assert(t[j] == s[j - 1]);
            lemma_precedes_asymmetric(x, s[j - 1]);
        } else if i < pos {
            assert(t[i] == s[i] && t[j] == s[j - 1]);
        } else {
            assert(t[i] == s[i - 1] && t[j] == s[j - 1]);
        }
    }
}

/// The results are in order: no result comes strictly before one that is
/// listed in front of it.
pub proof fn lemma_ordered_in_order(candidates: Seq<Option<RankKey>>)
    ensures
        in_rank_order(ordered(candidates)),
    decreases candidates.len(),
{
    if candidates.len() > 0 {
        lemma_ordered_in_order(candidates.drop_last());
        match candidates.last() {
            Some(k) => lemma_inserted_in_order(ordered(candidates.drop_last()), k),
            None => {},
        }
    }
}

/// Adding a candidate adds this candidate and nothing else.
pub proof fn lemma_inserted_members(s: Seq<RankKey>, x: RankKey)
    ensures
        inserted(s, x).len() == s.len() + 1,
        forall|k: RankKey| #[trigger] inserted(s, x).contains(k) <==> (s.contains(k) || k == x),
{
    let pos = lemma_split_exists(s, x);
    let t = s.insert(pos, x);
    assert forall|k: RankKey| #[trigger] t.contains(k) <==> (s.contains(k) || k == x) by {
        if t.contains(k) {
            let i = choose|i: int| 0 <= i < t.len() && t[i] == k;
            if i < pos {
                assert(s[i] == k);
            } else if i > pos {
                assert(s[i - 1] == k);
            }
        }
        if s.contains(k) {
            let i = choose|i: int| 0 <= i < s.len() && s[i] == k;
            if i < pos {
                assert(t[i] == k);
            } else {
                assert(t[i + 1] == k);
            }
        }
        if k == x {
            assert(t[pos] == k);
        }
    }
}

/// The results are the candidates that are present: none is lost and none
/// is made up.
pub proof fn lemma_ordered_members(candidates: Seq<Option<RankKey>>)
    ensures
        forall|k: RankKey| #[trigger]
            ordered(candidates).contains(k) <==> candidates.contains(Some(k)),
    decreases candidates.len(),
{
    if candidates.len() == 0 {
        assert forall|k: RankKey| #[trigger]
            ordered(candidates).contains(k) <==> candidates.contains(Some(k)) by {}
    } else {
        let front = candidates.drop_last();
        lemma_ordered_members(front);
        match candidates.last() {
            Some(x) => lemma_inserted_members(ordered(front), x),
            None => {},
        }
        assert forall|k: RankKey| #[trigger]
            ordered(candidates).contains(k) <==> candidates.contains(Some(k)) by {
            assert(ordered(front).contains(k) <==> front.contains(Some(k)));
            if front.contains(Some(k)) {
                let i = choose|i: int| 0 <= i < front.len() && front[i] == Some(k);
                assert(candidates[i] == Some(k));
            }
            if candidates.contains(Some(k)) {
                let i = choose|i: int| 0 <= i < candidates.len() && candidates[i] == Some(k);
                if i < front.len() {
                    assert(front[i] == Some(k));
                }
            }
        }
    }
}

/// Of two candidates the one that comes strictly before the other is listed
/// in front of it.
pub proof fn lemma_better_is_listed_first(candidates: Seq<Option<RankKey>>, a: RankKey, b: RankKey, p: int, q: int)
    requires
        precedes(a, b),
        0 <= p < ordered(candidates).len(),
        0 <= q < ordered(candidates).len(),
        ordered(candidates)[p] == a,
        ordered(candidates)[q] == b,
    ensures
        p < q,
{
    lemma_ordered_in_order(candidates);
    lemma_precedes_irreflexive(a);
}

/// Usage boost: of two candidates with the same score and the same fuzzy
/// score, the one with the higher usage boost comes strictly before the
/// other, as long as its total stays within 64 bits.
pub proof fn lemma_usage_breaks_ties(
    total: i64,
    fuzzy: i64,
    boost_a: i64,
    boost_b: i64,
    a: RankKey,
    b: RankKey,
)
    requires
        boost_a > boost_b,
        total + boost_a <= i64::MAX,
        total + boost_b >= i64::MIN,
        a.total == clamp_i64(total + boost_a),
        b.total == clamp_i64(total + boost_b),
        a.fuzzy == fuzzy,
        b.fuzzy == fuzzy,
    ensures
        precedes(a, b),
{
}

// ---------------------------------------------------------------------------
// Providers
// ---------------------------------------------------------------------------

/// Every result of the catalog refers to a command of the catalog, and
/// with a provider selected every result is a command of that provider.
/// The catalog is one that a vector can hold.
pub proof fn lemma_results_from_provider(
    commands: Seq<CommandEntry>,
    query: Seq<char>,
    provider: Option<Seq<char>>,
    usage: Seq<(String, u64)>,
    ranking: RankingSettings,
    j: int,
)
    requires
        commands.len() <= usize::MAX,
        0 <= j < command_results(commands, query, provider, usage, ranking).len(),
    ensures
        command_results(commands, query, provider, usage, ranking)[j] matches SearchItem::Command(i)
            && i < commands.len() && (provider matches Some(p) ==> same_ignoring_ascii_case(
            commands[i as int].source.provider(),
            p,
        )),
{
    let keys = command_keys(commands, query, provider, usage, ranking);
    let order = ordered(keys);
    lemma_ordered_members(keys);
    let k = order[j];
    assert(order.contains(k));
    assert(keys.contains(Some(k)));
    let i = choose|i: int| 0 <= i < keys.len() && keys[i] == Some(k);
    assert(keys[i] == command_key(commands[i], i as usize, query, provider, usage, ranking));
}

/// A query that starts with a slash gives internal commands only.
pub proof fn lemma_internal_query_gives_internal_items(
    commands: Seq<CommandEntry>,
    query: Seq<char>,
    aliases: Seq<(String, String)>,
    usage: Seq<(String, u64)>,
    ranking: RankingSettings,
    j: int,
)
    requires
        is_internal(query),
        0 <= j < search_results(commands, query, aliases, usage, ranking).len(),
    ensures
        search_results(commands, query, aliases, usage, ranking)[j] matches SearchItem::Internal(i)
            && i < INTERNAL_COMMANDS,
{
    let keys = internal_keys(crate::search::internal_needle(query));
    let order = ordered(keys);
    lemma_ordered_members(keys);
    let k = order[j];
    assert(order.contains(k));
    assert(keys.contains(Some(k)));
    let i = choose|i: int| 0 <= i < keys.len() && keys[i] == Some(k);
    assert(keys[i] == crate::search::internal_key(i as usize, crate::search::internal_needle(query)));
}

/// The name of a provider selects it only while it has no alias: where the
/// selector is no alias itself and every provider of that name in the
/// catalog has an alias, the selector stands for nothing and the query has
/// no results.
pub proof fn lemma_aliased_provider_name_selects_nothing(
    commands: Seq<CommandEntry>,
    query: Seq<char>,
    aliases: Seq<(String, String)>,
    usage: Seq<(String, u64)>,
    ranking: RankingSettings,
)
    requires
        has_selector(query),
        selector_alias(query).len() > 0,
        alias_target(aliases, selector_alias(query)) is None,
        forall|i: int|
            0 <= i < commands.len() && ascii_lowercase((#[trigger] commands[i]).source.provider())
                == selector_alias(query) ==> has_alias(aliases, commands[i].source.provider()),
    ensures
        selection(query, aliases, unaliased_names(commands, aliases)).unknown,
        search_results(commands, query, aliases, usage, ranking) == Seq::<SearchItem>::empty(),
{
    let alias = selector_alias(query);
    if unaliased_names(commands, aliases).contains(alias) {
        let i = choose|i: int|
            0 <= i < commands.len() && !has_alias(
                aliases,
                (#[trigger] commands[i]).source.provider(),
            ) && alias == ascii_lowercase(commands[i].source.provider());
        assert(has_alias(aliases, commands[i].source.provider()));
    }
}

/// The name of a provider without an alias selects it: where the selector
/// is no alias itself and a command of the catalog has a provider of that
/// name without an alias, the results are those of that provider.
pub proof fn lemma_unaliased_provider_name_selects(
    commands: Seq<CommandEntry>,
    query: Seq<char>,
    aliases: Seq<(String, String)>,
    witness: int,
)
    requires
        has_selector(query),
        selector_alias(query).len() > 0,
        alias_target(aliases, selector_alias(query)) is None,
        0 <= witness < commands.len(),
        ascii_lowercase(commands[witness].source.provider()) == selector_alias(query),
        !has_alias(aliases, commands[witness].source.provider()),
    ensures
        !selection(query, aliases, unaliased_names(commands, aliases)).unknown,
        selection(query, aliases, unaliased_names(commands, aliases)).provider == Some(
            selector_alias(query),
        ),
{
    assert(unaliased_names(commands, aliases).contains(selector_alias(query)));
}

// ---------------------------------------------------------------------------
// The session log
// ---------------------------------------------------------------------------

/// A log within its limit stays within it: the new line stands last, the
/// lines that stay keep their order, the oldest leave first, and a scroll
/// offset that points into the log still does.
pub proof fn lemma_push_keeps_bounds(
    lines: Seq<(ChatLineKind, Seq<char>)>,
    kind: ChatLineKind,
    text: Seq<char>,
    scroll: usize,
    follow: bool,
)
    requires
        lines.len() <= MAX_CHAT_LINES,
        scroll == 0 || scroll < lines.len(),
    ensures
        log_pushed(lines, kind, text).len() <= MAX_CHAT_LINES,
        log_pushed(lines, kind, text).len() == lines.len() + 1 - overflow_after_push(lines.len()),
        overflow_after_push(lines.len()) <= 1,
        log_pushed(lines, kind, text).last() == (kind, text),
        forall|i: int|
            0 <= i < log_pushed(lines, kind, text).len() - 1 ==> #[trigger] log_pushed(
                lines,
                kind,
                text,
            )[i] == lines[i + overflow_after_push(lines.len())],
        scroll_after_push(scroll, lines.len(), follow) == 0 || scroll_after_push(
            scroll,
            lines.len(),
            follow,
        ) < log_pushed(lines, kind, text).len(),
{
}


// ---------------------------------------------------------------------------
// Prompts
// ---------------------------------------------------------------------------

/// Parameter collection does not pass a required value that is missing:
/// Enter on an empty answer to a required value without a default leaves the
/// prompt where it is and runs nothing.
pub proof fn lemma_required_value_is_asked_again(pre: AppState, key: Key, post: AppState, action: UiAction)
    requires
        pre.mode is Prompt,
        prompt_key(key) is Submit,
        asked(pre, pre.mode->Prompt_0).kind is Value,
        asked(pre, pre.mode->Prompt_0).required,
        asked(pre, pre.mode->Prompt_0).default_value is None,
        trimmed(pre.mode->Prompt_0.input@).len() == 0,
        prompt_step(pre, key, post, action),
    ensures
        action is Idle,
        post.mode == pre.mode,
        post.query == pre.query,
{
}

// ---------------------------------------------------------------------------
// Colour codes
// ---------------------------------------------------------------------------

/// The text of a line from `pos` on without its control sequences: what
/// `ESC [` introduces is left out up to and with the character that ends it.
pub open spec fn visible_text(text: Seq<char>, pos: int) -> Seq<char>
    decreases text.len() - pos,
{
    if pos < 0 || pos >= text.len() {
        Seq::empty()
    } else if text[pos] == escape() && pos + 1 < text.len() && text[pos + 1] == '[' {
        let end = sequence_end(text, pos + 2);
        visible_text(
            text,
            if end < text.len() {
                end + 1
            } else {
                text.len() as int
            },
        )
    } else {
        seq![text[pos]] + visible_text(text, pos + 1)
    }
}

/// The texts of the segments, one behind the other.
pub open spec fn segment_text(segments: Seq<(Seq<char>, TextStyle)>) -> Seq<char>
    decreases segments.len(),
{
    if segments.len() == 0 {
        Seq::empty()
    } else {
        segment_text(segments.drop_last()) + segments.last().0
    }
}

proof fn lemma_scanned_text(
    text: Seq<char>,
    pos: int,
    style: TextStyle,
    buffer: Seq<char>,
    done: Seq<(Seq<char>, TextStyle)>,
    base: TextStyle,
    default_fg: Color,
)
    requires
        0 <= pos,
    ensures
        segment_text(scanned(text, pos, style, buffer, done, base, default_fg)) == segment_text(done)
            + buffer + visible_text(text, pos),
    decreases text.len() - pos,
{
    let after = flushed(done, buffer, style);
    assert(segment_text(after) =~= segment_text(done) + buffer) by {
        if buffer.len() > 0 {
            assert(after.drop_last() =~= done);
        }
    }
    if pos >= text.len() {
        assert(segment_text(done) + buffer + Seq::<char>::empty() =~= segment_text(done) + buffer);
    } else if text[pos] == escape() && pos + 1 < text.len() && text[pos + 1] == '[' {
        let end = sequence_end(text, pos + 2);
        let next = if end < text.len() {
            end + 1
        } else {
            text.len() as int
        };
        let style_after = if is_sgr(text, pos + 2) {
            sgr_applied(text.subrange(pos + 2, end), style, base, default_fg)
        } else {
            style
        };
        lemma_scanned_text(text, next, style_after, Seq::empty(), after, base, default_fg);
        assert(segment_text(after) + Seq::<char>::empty() + visible_text(text, next) =~= segment_text(
            done,
        ) + buffer + visible_text(text, pos));
    } else {
        lemma_scanned_text(text, pos + 1, style, buffer.push(text[pos]), done, base, default_fg);
        assert(segment_text(done) + buffer.push(text[pos]) + visible_text(text, pos + 1)
            =~= segment_text(done) + buffer + (seq![text[pos]] + visible_text(text, pos + 1)));
    }
}

/// The interpreter keeps the text: the segments of a line, one behind the
/// other, are the line without its control sequences, whatever the
/// sequences are.
pub proof fn lemma_segments_keep_the_text(text: Seq<char>, base: TextStyle, default_fg: Color)
    ensures
        segment_text(ansi_segments(text, base, default_fg)) == visible_text(text, 0),
        ansi_segments(text, base, default_fg).len() > 0,
{
    lemma_scanned_text(text, 0, base, Seq::empty(), Seq::empty(), base, default_fg);
    let found = scanned(text, 0, base, Seq::empty(), Seq::empty(), base, default_fg);
    assert(segment_text(Seq::<(Seq<char>, TextStyle)>::empty()) + Seq::<char>::empty()
        + visible_text(text, 0) =~= visible_text(text, 0));
    if found.len() == 0 {
        let one = seq![(Seq::<char>::empty(), base)];
        assert(one.drop_last() =~= Seq::empty());
        assert(segment_text(one) =~= Seq::<char>::empty());
    }
}

} // verus!
