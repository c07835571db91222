//! From a query to the ordered list of results: the provider selector, the
//! usage boost and the order of the candidates.

use crate::model::{
    assigned, lemma_assigned_found, lemma_assigned_missing, CommandEntry, CommandSource,
};
use crate::rank::{
    clamp_i64, clamp_to_i64, flag, fuzzy_match_score, fuzzy_score, haystack, haystack_of,
    match_tokens, score_with_fuzzy, scored, text_of,
};
use crate::text::{
    append_chars, ascii_lowercase, chars_of, contains_text, copy_range, count_leading,
    count_leading_from, has_text, leading, less_chars, lex_lt, same_chars, string_of, strip_start, strip_start_chars, to_ascii_lowercase, trim_chars,
    trimmed, unicode_lowercase, CharClass,
};
use vstd::prelude::*;

verus! {

// ---------------------------------------------------------------------------
// Order
// ---------------------------------------------------------------------------

/// What a candidate is ordered by.
pub struct RankKey {
    pub index: usize,
    pub total: i64,
    pub fuzzy: i64,
    pub name: Seq<char>,
}

/// A candidate with its scores and the name that breaks ties.
pub struct Ranked {
    pub index: usize,
    pub total: i64,
    pub fuzzy: i64,
    pub name: Vec<char>,
}

impl Ranked {
    pub open spec fn key(self) -> RankKey {
        RankKey { index: self.index, total: self.total, fuzzy: self.fuzzy, name: self.name@ }
    }
}

/// The keys of the candidates.
pub open spec fn keys(v: Seq<Ranked>) -> Seq<RankKey> {
    Seq::new(v.len(), |i: int| v[i].key())
}

/// Whether `a` comes strictly before `b`: by the higher total, then by the
/// higher fuzzy score, then by the name that sorts first.
pub open spec fn precedes(a: RankKey, b: RankKey) -> bool {
    a.total > b.total || (a.total == b.total && (a.fuzzy > b.fuzzy || (a.fuzzy == b.fuzzy && lex_lt(
        a.name,
        b.name,
    ))))
}

/// `sorted` with `x` added behind every element that `x` does not come
/// strictly before: among equals the one that came first stays first.
pub open spec fn inserted(sorted: Seq<RankKey>, x: RankKey) -> Seq<RankKey>
    decreases sorted.len(),
{
    if sorted.len() > 0 && precedes(x, sorted.last()) {
        inserted(sorted.drop_last(), x).push(sorted.last())
    } else {
        sorted.push(x)
    }
}

/// The candidates that are present, in order: each one is added in turn to
/// those before it.
pub open spec fn ordered(candidates: Seq<Option<RankKey>>) -> Seq<RankKey>
    decreases candidates.len(),
{
    if candidates.len() == 0 {
        Seq::empty()
    } else {
        let before = ordered(candidates.drop_last());
        match candidates.last() {
            Some(k) => inserted(before, k),
            None => before,
        }
    }
}

/// Adding a candidate puts it in front of the elements that it comes strictly
/// before, where these stand at the end.
pub proof fn lemma_inserted_at(sorted: Seq<RankKey>, x: RankKey, pos: int)
    requires
        0 <= pos <= sorted.len(),
        forall|j: int| pos <= j < sorted.len() ==> precedes(x, #[trigger] sorted[j]),
        pos == 0 || !precedes(x, sorted[pos - 1]),
    ensures
        inserted(sorted, x) == sorted.insert(pos, x),
    decreases sorted.len() - pos,
{
    if pos == sorted.len() {
        assert(sorted.insert(pos, x) =~= sorted.push(x));
    } else {
        let front = sorted.drop_last();
        assert(precedes(x, sorted.last()));
        assert forall|j: int| pos <= j < front.len() implies precedes(x, #[trigger] front[j]) by {
            assert(front[j] == sorted[j]);
        }
        lemma_inserted_at(front, x, pos);
        assert(front.insert(pos, x).push(sorted.last()) =~= sorted.insert(pos, x));
    }
}

fn precedes_of(a: &Ranked, b: &Ranked) -> (r: bool)
    ensures
        r == precedes(a.key(), b.key()),
{
    if a.total != b.total {
        a.total > b.total
    } else if a.fuzzy != b.fuzzy {
        a.fuzzy > b.fuzzy
    } else {
        less_chars(&a.name, &b.name)
    }
}

/// Adds one candidate to a list that is in order.
pub fn insert_ranked(sorted: &mut Vec<Ranked>, x: Ranked)
    ensures
        keys(final(sorted)@) == inserted(keys(old(sorted)@), x.key()),
{
    let mut pos: usize = sorted.len();
    while pos > 0 && precedes_of(&x, &sorted[pos - 1])
        invariant
            pos <= sorted.len(),
            sorted@ == old(sorted)@,
            forall|j: int| pos <= j < sorted.len() ==> precedes(x.key(), #[trigger] keys(sorted@)[j]),
        decreases pos,
    {
        pos -= 1;
    }
    proof {
        if pos > 0 {
            assert(keys(sorted@)[pos - 1] == sorted@[pos - 1].key());
        }
        lemma_inserted_at(keys(sorted@), x.key(), pos as int);
    }
    let ghost k = x.key();
    sorted.insert(pos, x);
    assert(keys(sorted@) =~= keys(old(sorted)@).insert(pos as int, k));
}

// ---------------------------------------------------------------------------
// Results
// ---------------------------------------------------------------------------

#[derive(Clone, Copy, Debug, PartialEq, Eq)]
pub enum SearchItem {
    /// An index into the catalog.
    Command(usize),
    /// An index into the internal commands.
    Internal(usize),
}

/// The candidates as results that refer to the catalog.
pub open spec fn command_items(order: Seq<RankKey>) -> Seq<SearchItem> {
    Seq::new(order.len(), |i: int| SearchItem::Command(order[i].index))
}

/// The candidates as results that refer to the internal commands.
pub open spec fn internal_items(order: Seq<RankKey>) -> Seq<SearchItem> {
    Seq::new(order.len(), |i: int| SearchItem::Internal(order[i].index))
}

fn items_of(order: &Vec<Ranked>, internal: bool) -> (out: Vec<SearchItem>)
    ensures
        internal ==> out@ == internal_items(keys(order@)),
        !internal ==> out@ == command_items(keys(order@)),
{
    let mut out: Vec<SearchItem> = Vec::new();
    let mut i: usize = 0;
    while i < order.len()
        invariant
            i <= order.len(),
            out.len() == i,
            forall|j: int|
                0 <= j < i ==> #[trigger] out@[j] == if internal {
                    SearchItem::Internal(order@[j].index)
                } else {
                    SearchItem::Command(order@[j].index)
                },
        decreases order.len() - i,
    {
        if internal {
            out.push(SearchItem::Internal(order[i].index));
        } else {
            out.push(SearchItem::Command(order[i].index));
        }
        i += 1;
    }
    proof {
        if internal {
            assert(out@ =~= internal_items(keys(order@)));
        } else {
            assert(out@ =~= command_items(keys(order@)));
        }
    }
    out
}

// ---------------------------------------------------------------------------
// Providers and usage
// ---------------------------------------------------------------------------

#[derive(Debug, Clone, Copy)]
pub struct RankingSettings {
    pub usage_enabled: bool,
    pub usage_weight: i64,
}

/// The name of the provider of a command.
pub fn command_provider_name(command: &CommandEntry) -> (name: &'static str)
    ensures
        name@ == command.source.provider(),
{
    match command.source {
        CommandSource::Config => "config",
        CommandSource::Provider(name) => name,
    }
}

/// The key under which the runs of a command are counted: the provider, two
/// colons, the name.
pub open spec fn usage_key(command: CommandEntry) -> Seq<char> {
    command.source.provider() + seq![':', ':'] + command.name@
}

/// The usage key of a command.
pub fn usage_key_chars(command: &CommandEntry) -> (out: Vec<char>)
    ensures
        out@ == usage_key(*command),
{
    let mut out = chars_of(command_provider_name(command));
    out.push(':');
    out.push(':');
    let name = chars_of(command.name.as_str());
    append_chars(&mut out, &name);
    assert(out@ =~= usage_key(*command));
    out
}

/// The usage key of a command.
pub fn command_usage_key(command: &CommandEntry) -> (key: String)
    ensures
        key@ == usage_key(*command),
{
    let chars = usage_key_chars(command);
    string_of(&chars)
}

/// The count recorded under `key`: that of the first entry with this key, 0
/// where there is none.
pub open spec fn usage_count(usage: Seq<(String, u64)>, key: Seq<char>) -> u64
    decreases usage.len(),
{
    if usage.len() == 0 {
        0
    } else if usage[0].0@ == key {
        usage[0].1
    } else {
        usage_count(usage.drop_first(), key)
    }
}

/// The count recorded under a key.
pub fn usage_count_of(usage: &Vec<(String, u64)>, key: &Vec<char>) -> (count: u64)
    ensures
        count == usage_count(usage@, key@),
{
    let mut i: usize = 0;
    assert(usage@.skip(0) == usage@);
    while i < usage.len()
        invariant
            i <= usage.len(),
            usage_count(usage@, key@) == usage_count(usage@.skip(i as int), key@),
        decreases usage.len() - i,
    {
        let ghost rest = usage@.skip(i as int);
        assert(rest[0] == usage@[i as int]);
        assert(rest.drop_first() == usage@.skip(i + 1));
        let k = chars_of(usage[i].0.as_str());
        if same_chars(&k, key) {
            return usage[i].1;
        }
        i += 1;
    }
    0
}

/// Usage keys and counts as plain values.
pub open spec fn count_views(usage: Seq<(String, u64)>) -> Seq<(Seq<char>, u64)> {
    Seq::new(usage.len(), |i: int| (usage[i].0@, usage[i].1))
}

/// The count after one more run; it stops at the largest number.
pub open spec fn next_count(count: u64) -> u64 {
    if count < u64::MAX {
        (count + 1) as u64
    } else {
        count
    }
}

/// Counts one more run under `key`.
pub fn bump_usage(usage: &mut Vec<(String, u64)>, key: String)
    ensures
        count_views(final(usage)@) == assigned(
            count_views(old(usage)@),
            key@,
            next_count(usage_count(old(usage)@, key@)),
        ),
{
    let wanted = chars_of(key.as_str());
    let ghost before = count_views(usage@);
    let mut i: usize = 0;
    assert(usage@.skip(0) == usage@);
    while i < usage.len()
        invariant
            i <= usage.len(),
            usage@ == old(usage)@,
            before == count_views(usage@),
            wanted@ == key@,
            forall|j: int| 0 <= j < i ==> (#[trigger] before[j]).0 != key@,
            usage_count(usage@, key@) == usage_count(usage@.skip(i as int), key@),
        decreases usage.len() - i,
    {
        let ghost rest = usage@.skip(i as int);
        assert(rest[0] == usage@[i as int]);
        assert(rest.drop_first() == usage@.skip(i + 1));
        assert(before[i as int].0 == usage@[i as int].0@);
        let k = chars_of(usage[i].0.as_str());
        if same_chars(&k, &wanted) {
            let count = usage[i].1;
            let next: u64 = if count < u64::MAX {
                count + 1
            } else {
                count
            };
            proof {
                lemma_assigned_found(before, key@, next, i as int);
            }
            usage.set(i, (key, next));
            assert(count_views(usage@) =~= before.update(i as int, (key@, next)));
            return;
        }
        i += 1;
    }
    proof {
        lemma_assigned_missing(before, key@, 1u64);
    }
    usage.push((key, 1));
    assert(count_views(usage@) =~= before.push((key@, 1u64)));
}

/// The points that usage adds: the count times the weight, a negative weight
/// counting as 0, held within 64 bits; nothing while usage ranking is off.
pub open spec fn usage_boost(ranking: RankingSettings, count: u64) -> i64 {
    if !ranking.usage_enabled {
        0
    } else {
        let capped: int = if count > i64::MAX {
            i64::MAX as int
        } else {
            count as int
        };
        let weight: int = if ranking.usage_weight > 0 {
            ranking.usage_weight as int
        } else {
            0
        };
        clamp_i64(capped * weight)
    }
}

/// The points that usage adds.
pub fn usage_boost_of(ranking: RankingSettings, count: u64) -> (boost: i64)
    ensures
        boost == usage_boost(ranking, count),
{
    if !ranking.usage_enabled {
        return 0;
    }
    let capped: i128 = if count > i64::MAX as u64 {
        i64::MAX as i128
    } else {
        count as i128
    };
    let weight: i128 = if ranking.usage_weight > 0 {
        ranking.usage_weight as i128
    } else {
        0
    };
    assert(0 <= capped * weight <= 0x7fff_ffff_ffff_ffff * 0x7fff_ffff_ffff_ffff) by (nonlinear_arith)
        requires
            0 <= capped <= 0x7fff_ffff_ffff_ffff,
            0 <= weight <= 0x7fff_ffff_ffff_ffff,
    ;
    clamp_to_i64(capped * weight)
}

/// Whether the two names are the same but for the case of ASCII letters.
pub open spec fn same_ignoring_ascii_case(a: Seq<char>, b: Seq<char>) -> bool {
    ascii_lowercase(a) == ascii_lowercase(b)
}

/// Whether two names are the same but for the case of ASCII letters.
pub fn same_ignoring_case(a: &Vec<char>, b: &Vec<char>) -> (r: bool)
    ensures
        r == same_ignoring_ascii_case(a@, b@),
{
    let x = to_ascii_lowercase(a);
    let y = to_ascii_lowercase(b);
    same_chars(&x, &y)
}

/// Whether some alias stands for the provider.
pub open spec fn has_alias(aliases: Seq<(String, String)>, provider: Seq<char>) -> bool {
    exists|i: int| 0 <= i < aliases.len() && (#[trigger] aliases[i]).1@ == provider
}

/// Whether some alias stands for the provider.
pub fn has_alias_of(aliases: &Vec<(String, String)>, provider: &Vec<char>) -> (r: bool)
    ensures
        r == has_alias(aliases@, provider@),
{
    let mut i: usize = 0;
    while i < aliases.len()
        invariant
            i <= aliases.len(),
            forall|j: int| 0 <= j < i ==> (#[trigger] aliases@[j]).1@ != provider@,
        decreases aliases.len() - i,
    {
        let p = chars_of(aliases[i].1.as_str());
        if same_chars(&p, provider) {
            return true;
        }
        i += 1;
    }
    false
}

/// The provider that an alias stands for: that of the first entry with this
/// alias.
pub open spec fn alias_target(aliases: Seq<(String, String)>, alias: Seq<char>) -> Option<Seq<char>>
    decreases aliases.len(),
{
    if aliases.len() == 0 {
        None
    } else if aliases[0].0@ == alias {
        Some(aliases[0].1@)
    } else {
        alias_target(aliases.drop_first(), alias)
    }
}

/// The provider that an alias stands for.
pub fn alias_target_of(aliases: &Vec<(String, String)>, alias: &Vec<char>) -> (r: Option<Vec<char>>)
    ensures
        match r {
            Some(p) => alias_target(aliases@, alias@) == Some(p@),
            None => alias_target(aliases@, alias@) is None,
        },
{
    let mut i: usize = 0;
    assert(aliases@.skip(0) == aliases@);
    while i < aliases.len()
        invariant
            i <= aliases.len(),
            alias_target(aliases@, alias@) == alias_target(aliases@.skip(i as int), alias@),
        decreases aliases.len() - i,
    {
        let ghost rest = aliases@.skip(i as int);
        assert(rest[0] == aliases@[i as int]);
        assert(rest.drop_first() == aliases@.skip(i + 1));
        let k = chars_of(aliases[i].0.as_str());
        if same_chars(&k, alias) {
            return Some(chars_of(aliases[i].1.as_str()));
        }
        i += 1;
    }
    None
}

/// The lowercase names of the providers of catalog entries that no alias
/// stands for.
pub open spec fn unaliased_names(commands: Seq<CommandEntry>, aliases: Seq<(String, String)>) -> Set<
    Seq<char>,
> {
    Set::new(
        |name: Seq<char>|
            exists|i: int|
                0 <= i < commands.len() && !has_alias(
                    aliases,
                    (#[trigger] commands[i]).source.provider(),
                ) && name == ascii_lowercase(commands[i].source.provider()),
    )
}

/// The texts of a list of names as a set.
pub open spec fn name_set(names: Seq<String>) -> Set<Seq<char>> {
    Set::new(|name: Seq<char>| exists|i: int| 0 <= i < names.len() && (#[trigger] names[i])@ == name)
}

/// Whether the list holds the name.
pub fn holds_name(names: &Vec<String>, name: &Vec<char>) -> (r: bool)
    ensures
        r == name_set(names@).contains(name@),
{
    let mut i: usize = 0;
    while i < names.len()
        invariant
            i <= names.len(),
            forall|j: int| 0 <= j < i ==> (#[trigger] names@[j])@ != name@,
        decreases names.len() - i,
    {
        let n = chars_of(names[i].as_str());
        if same_chars(&n, name) {
            return true;
        }
        i += 1;
    }
    false
}

/// Lists the lowercase provider names that can be used as a selector
/// because no alias stands for them. No name is listed twice.
pub fn provider_names_without_alias(commands: &Vec<CommandEntry>, aliases: &Vec<(String, String)>) -> (out:
    Vec<String>)
    ensures
        name_set(out@) == unaliased_names(commands@, aliases@),
        forall|i: int, j: int| 0 <= i < j < out.len() ==> out@[i]@ != out@[j]@,
{
    let mut out: Vec<String> = Vec::new();
    let mut i: usize = 0;
    while i < commands.len()
        invariant
            i <= commands.len(),
            name_set(out@) =~= unaliased_names(commands@.take(i as int), aliases@),
            forall|a: int, b: int| 0 <= a < b < out.len() ==> out@[a]@ != out@[b]@,
        decreases commands.len() - i,
    {
        let provider = chars_of(command_provider_name(&commands[i]));
        let ghost prev = commands@.take(i as int);
        let ghost next = commands@.take(i + 1);
        let ghost before = out@;
        let ghost lower = ascii_lowercase(provider@);
        assert(next[i as int] == commands@[i as int]);
        assert forall|j: int| 0 <= j < i implies #[trigger] next[j] == prev[j] by {}
        let mut added = false;
        if !has_alias_of(aliases, &provider) {
            let name = to_ascii_lowercase(&provider);
            if !holds_name(&out, &name) {
                out.push(string_of(&name));
                added = true;
            }
        }
        proof {
            assert forall|n: Seq<char>| name_set(out@).contains(n) == unaliased_names(
                next,
                aliases@,
            ).contains(n) by {
                if name_set(out@).contains(n) {
                    let j = choose|j: int| 0 <= j < out.len() && (#[trigger] out@[j])@ == n;
                    if j < before.len() {
                        assert(before[j]@ == n);
                        assert(name_set(before).contains(n));
                        assert(unaliased_names(prev, aliases@).contains(n));
                        let w = choose|w: int|
                            0 <= w < prev.len() && !has_alias(
                                aliases@,
                                (#[trigger] prev[w]).source.provider(),
                            ) && n == ascii_lowercase(prev[w].source.provider());
                        assert(next[w] == prev[w]);
                    } else {
                        assert(n == lower);
                        assert(next[i as int].source.provider() == provider@);
                    }
                }
                if unaliased_names(next, aliases@).contains(n) {
                    let w = choose|w: int|
                        0 <= w < next.len() && !has_alias(
                            aliases@,
                            (#[trigger] next[w]).source.provider(),
                        ) && n == ascii_lowercase(next[w].source.provider());
                    if w < i {
                        assert(prev[w] == next[w]);
                        assert(unaliased_names(prev, aliases@).contains(n));
                        assert(name_set(before).contains(n));
                        let j = choose|j: int| 0 <= j < before.len() && (#[trigger] before[j])@ == n;
                        assert(out@[j] == before[j]);
                    } else {
                        assert(n == lower);
                        if added {
                            assert(out@[out.len() - 1]@ == n);
                        } else {
                            assert(name_set(before).contains(n));
                        }
                    }
                }
            }
        }
        i += 1;
    }
    assert(commands@.take(commands.len() as int) == commands@);
    out
}

/// The selector at the front of a query.
pub struct Selection {
    /// The provider that the results are limited to.
    pub provider: Option<Seq<char>>,
    /// The query that is left to match.
    pub rest: Seq<char>,
    /// Whether a selector was written that stands for no provider.
    pub unknown: bool,
}

/// Whether the query starts, after whitespace, with a colon.
pub open spec fn has_selector(query: Seq<char>) -> bool {
    let front = strip_start(query, CharClass::Whitespace);
    front.len() > 0 && front[0] == ':'
}

/// The alias that a query selects a provider by: what stands between the
/// colon and the next whitespace, in ASCII lowercase.
pub open spec fn selector_alias(query: Seq<char>) -> Seq<char> {
    let after = strip_start(query, CharClass::Whitespace).skip(1);
    ascii_lowercase(after.take(leading(after, CharClass::NotWhitespace) as int))
}

/// What is left of a query behind its selector.
pub open spec fn selector_rest(query: Seq<char>) -> Seq<char> {
    let after = strip_start(query, CharClass::Whitespace).skip(1);
    strip_start(after.skip(leading(after, CharClass::NotWhitespace) as int), CharClass::Whitespace)
}

/// A query may start with a colon and an alias. The alias is looked up
/// first among the configured aliases, then among the provider names that
/// have no alias. A query without a colon, or with nothing behind it, is
/// matched as it stands.
pub open spec fn selection(
    query: Seq<char>,
    aliases: Seq<(String, String)>,
    unaliased: Set<Seq<char>>,
) -> Selection {
    if !has_selector(query) || selector_alias(query).len() == 0 {
        Selection { provider: None, rest: query, unknown: false }
    } else {
        let alias = selector_alias(query);
        let rest = selector_rest(query);
        match alias_target(aliases, alias) {
            Some(provider) => Selection { provider: Some(provider), rest, unknown: false },
            None => if unaliased.contains(alias) {
                Selection { provider: Some(alias), rest, unknown: false }
            } else {
                Selection { provider: None, rest, unknown: true }
            },
        }
    }
}

/// The text of a character vector that may be missing.
pub open spec fn chars_view(text: Option<Vec<char>>) -> Option<Seq<char>> {
    match text {
        Some(t) => Some(t@),
        None => None,
    }
}

/// The selector of a query, as the functions of this module hand it on.
pub struct ProviderFilter {
    pub provider: Option<String>,
    pub rest: String,
    pub unknown: bool,
}

impl ProviderFilter {
    pub open spec fn view(self) -> Selection {
        Selection { provider: text_of(self.provider), rest: self.rest@, unknown: self.unknown }
    }
}

struct FilterChars {
    provider: Option<Vec<char>>,
    rest: Vec<char>,
    unknown: bool,
}

impl FilterChars {
    spec fn view(self) -> Selection {
        Selection {
            provider: chars_view(self.provider),
            rest: self.rest@,
            unknown: self.unknown,
        }
    }
}

fn select_chars(query: &Vec<char>, aliases: &Vec<(String, String)>, names: &Vec<String>) -> (r: FilterChars)
    ensures
        r.view() == selection(query@, aliases@, name_set(names@)),
{
    let skipped = count_leading(query, CharClass::Whitespace);
    let ghost front = strip_start(query@, CharClass::Whitespace);
    assert(front.len() == query.len() - skipped);
    assert(skipped < query.len() ==> front[0] == query@[skipped as int]);
    if !(skipped < query.len() && query[skipped] == ':') {
        let whole = copy_range(query, 0, query.len());
        assert(whole@ =~= query@);
        return FilterChars { provider: None, rest: whole, unknown: false };
    }
    let ghost after = front.skip(1);
    assert(after == query@.skip(skipped + 1));
    let n = count_leading_from(query, skipped + 1, CharClass::NotWhitespace);
    let raw = copy_range(query, skipped + 1, skipped + 1 + n);
    assert(raw@ == after.take(n as int));
    let alias = to_ascii_lowercase(&raw);
    if alias.len() == 0 {
        let whole = copy_range(query, 0, query.len());
        assert(whole@ =~= query@);
        return FilterChars { provider: None, rest: whole, unknown: false };
    }
    let m = count_leading_from(query, skipped + 1 + n, CharClass::Whitespace);
    assert(after.skip(n as int) == query@.skip(skipped + 1 + n));
    let rest = copy_range(query, skipped + 1 + n + m, query.len());
    assert(rest@ == strip_start(after.skip(n as int), CharClass::Whitespace));
    match alias_target_of(aliases, &alias) {
        Some(provider) => FilterChars { provider: Some(provider), rest, unknown: false },
        None => {
            if holds_name(names, &alias) {
                FilterChars { provider: Some(alias), rest, unknown: false }
            } else {
                FilterChars { provider: None, rest, unknown: true }
            }
        },
    }
}

/// Reads the provider selector at the front of a query.
pub fn parse_query_provider_filter(
    query: &str,
    provider_aliases: &Vec<(String, String)>,
    provider_names_without_alias: &Vec<String>,
) -> (r: ProviderFilter)
    ensures
        r.view() == selection(query@, provider_aliases@, name_set(provider_names_without_alias@)),
{
    let chars = chars_of(query);
    let found = select_chars(&chars, provider_aliases, provider_names_without_alias);
    let provider = match &found.provider {
        Some(p) => Some(string_of(p)),
        None => None,
    };
    ProviderFilter { provider, rest: string_of(&found.rest), unknown: found.unknown }
}

// ---------------------------------------------------------------------------
// Catalog results
// ---------------------------------------------------------------------------

/// The candidate that a catalog entry makes for a query, or `None` where the
/// provider filter or the score leaves it out. Without a query the usage
/// boost alone is the total.
pub open spec fn command_key(
    command: CommandEntry,
    index: usize,
    query: Seq<char>,
    provider: Option<Seq<char>>,
    usage: Seq<(String, u64)>,
    ranking: RankingSettings,
) -> Option<RankKey> {
    let boost = usage_boost(ranking, usage_count(usage, usage_key(command)));
    let name = unicode_lowercase(command.name@);
    if provider is Some && !same_ignoring_ascii_case(command.source.provider(), provider->0) {
        None
    } else if query.len() == 0 {
        Some(RankKey { index, total: boost, fuzzy: 0, name })
    } else {
        match scored(
            fuzzy_score(
                haystack(command.name@, text_of(command.description)),
                unicode_lowercase(query),
            ),
            command.name@,
            text_of(command.description),
            match_tokens(query),
        ) {
            Some((total, fuzzy)) => Some(
                RankKey { index, total: clamp_i64(total + boost), fuzzy, name },
            ),
            None => None,
        }
    }
}

/// The candidates of the catalog, entry by entry.
pub open spec fn command_keys(
    commands: Seq<CommandEntry>,
    query: Seq<char>,
    provider: Option<Seq<char>>,
    usage: Seq<(String, u64)>,
    ranking: RankingSettings,
) -> Seq<Option<RankKey>> {
    Seq::new(
        commands.len(),
        |i: int| command_key(commands[i], i as usize, query, provider, usage, ranking),
    )
}

/// The catalog entries that match, best first.
pub open spec fn command_results(
    commands: Seq<CommandEntry>,
    query: Seq<char>,
    provider: Option<Seq<char>>,
    usage: Seq<(String, u64)>,
    ranking: RankingSettings,
) -> Seq<SearchItem> {
    command_items(ordered(command_keys(commands, query, provider, usage, ranking)))
}

fn rank_command(
    command: &CommandEntry,
    index: usize,
    query: &Vec<char>,
    query_lower: &Vec<char>,
    terms: &Vec<String>,
    provider: &Option<Vec<char>>,
    usage: &Vec<(String, u64)>,
    ranking: RankingSettings,
) -> (r: Option<Ranked>)
    requires
        query_lower@ == unicode_lowercase(query@),
        crate::text::views(terms@) == match_tokens(query@),
    ensures
        match r {
            Some(k) => Some(k.key()) == command_key(
                *command,
                index,
                query@,
                chars_view(*provider),
                usage@,
                ranking,
            ),
            None => command_key(
                *command,
                index,
                query@,
                chars_view(*provider),
                usage@,
                ranking,
            ) is None,
        },
{
    match provider {
        Some(p) => {
            let own = chars_of(command_provider_name(command));
            if !same_ignoring_case(&own, p) {
                return None;
            }
        },
        None => {},
    }
    let key = usage_key_chars(command);
    let boost = usage_boost_of(ranking, usage_count_of(usage, &key));
    let lower = command.name.as_str().to_lowercase();
    let name = chars_of(lower.as_str());
    if query.len() == 0 {
        return Some(Ranked { index, total: boost, fuzzy: 0, name });
    }
    let hay = haystack_of(command.name.as_str(), &command.description);
    let fuzzy = fuzzy_match_score(&hay, query_lower);
    match score_with_fuzzy(fuzzy, terms, command) {
        Some(score) => {
            let total = clamp_to_i64(score.total as i128 + boost as i128);
            Some(Ranked { index, total, fuzzy: score.fuzzy, name })
        },
        None => None,
    }
}

/// Ranks the catalog for the query that is left behind the selector.
pub fn rank_commands(
    commands: &Vec<CommandEntry>,
    query: &Vec<char>,
    provider: &Option<Vec<char>>,
    usage: &Vec<(String, u64)>,
    ranking: RankingSettings,
) -> (out: Vec<SearchItem>)
    ensures
        out@ == command_results(
            commands@,
            query@,
            chars_view(*provider),
            usage@,
            ranking,
        ),
{
    let ghost gp: Option<Seq<char>> = chars_view(*provider);
    let ghost all = command_keys(commands@, query@, gp, usage@, ranking);
    let query_text = string_of(query);
    let lower = query_text.as_str().to_lowercase();
    let query_lower = chars_of(lower.as_str());
    let terms = crate::rank::tokenize_for_match(query_text.as_str());
    let mut sorted: Vec<Ranked> = Vec::new();
    let mut i: usize = 0;
    assert(keys(sorted@) =~= ordered(all.take(0)));
    while i < commands.len()
        invariant
            i <= commands.len(),
            all == command_keys(commands@, query@, gp, usage@, ranking),
            gp == chars_view(*provider),
            query_lower@ == unicode_lowercase(query@),
            crate::text::views(terms@) == match_tokens(query@),
            keys(sorted@) == ordered(all.take(i as int)),
        decreases commands.len() - i,
    {
        proof {
            let next = all.take(i + 1);
            assert(next.drop_last() == all.take(i as int));
            assert(next.last() == all[i as int]);
        }
        match rank_command(&commands[i], i, query, &query_lower, &terms, provider, usage, ranking) {
            Some(k) => insert_ranked(&mut sorted, k),
            None => {},
        }
        i += 1;
    }
    assert(all.take(commands.len() as int) == all);
    items_of(&sorted, false)
}

// ---------------------------------------------------------------------------
// Internal commands
// ---------------------------------------------------------------------------

#[derive(Clone, Copy, Debug, PartialEq, Eq)]
pub enum InternalCommandKind {
    Reload,
    Init,
}

#[derive(Clone, Copy, Debug)]
pub struct InternalCommandDef {
    pub name: &'static str,
    pub description: &'static str,
    pub kind: InternalCommandKind,
    pub default_force: bool,
}

/// How many internal commands there are.
pub const INTERNAL_COMMANDS: usize = 2;

/// The internal command with this index.
pub open spec fn internal_def(index: int) -> InternalCommandDef {
    if index == 0 {
        InternalCommandDef {
            name: "/init",
            description: "Create default config file",
            kind: InternalCommandKind::Init,
            default_force: false,
        }
    } else {
        InternalCommandDef {
            name: "/reload",
            description: "Reload config and providers",
            kind: InternalCommandKind::Reload,
            default_force: false,
        }
    }
}

/// The internal commands, in the order in which results refer to them.
pub fn internal_commands() -> (defs: Vec<InternalCommandDef>)
    ensures
        defs@.len() == INTERNAL_COMMANDS,
        forall|i: int| 0 <= i < INTERNAL_COMMANDS ==> defs@[i] == internal_def(i),
{
    let mut defs: Vec<InternalCommandDef> = Vec::new();
    defs.push(
        InternalCommandDef {
            name: "/init",
            description: "Create default config file",
            kind: InternalCommandKind::Init,
            default_force: false,
        },
    );
    defs.push(
        InternalCommandDef {
            name: "/reload",
            description: "Reload config and providers",
            kind: InternalCommandKind::Reload,
            default_force: false,
        },
    );
    defs
}

/// Whether the query addresses the internal commands: it starts, after
/// whitespace, with a slash.
pub open spec fn is_internal(query: Seq<char>) -> bool {
    let front = strip_start(query, CharClass::Whitespace);
    front.len() > 0 && front[0] == '/'
}

/// Whether the query addresses the internal commands.
pub fn is_internal_chars(query: &Vec<char>) -> (r: bool)
    ensures
        r == is_internal(query@),
{
    let n = count_leading(query, CharClass::Whitespace);
    n < query.len() && query[n] == '/'
}

/// What an internal query is matched by: the text behind the leading
/// whitespace and slashes, trimmed and in lowercase.
pub open spec fn internal_needle(query: Seq<char>) -> Seq<char> {
    unicode_lowercase(
        trimmed(strip_start(strip_start(query, CharClass::Whitespace), CharClass::Is('/'))),
    )
}

/// The text that an internal command is matched against.
pub open spec fn internal_haystack(index: int) -> Seq<char> {
    unicode_lowercase(internal_def(index).name@ + seq![' '] + internal_def(index).description@)
}

/// The candidate that an internal command makes. An empty needle matches
/// every command with one fixed score; else the score is ten times the
/// fuzzy score, and 10000 more where the haystack holds the needle.
pub open spec fn internal_key(index: usize, needle: Seq<char>) -> Option<RankKey> {
    let hay = internal_haystack(index as int);
    let fuzzy: i64 = if needle.len() == 0 {
        1
    } else {
        fuzzy_score(hay, needle)
    };
    if needle.len() == 0 || fuzzy > 0 || contains_text(hay, needle) {
        Some(
            RankKey {
                index,
                total: clamp_i64(
                    clamp_i64(fuzzy * 10) + flag(
                        needle.len() > 0 && contains_text(hay, needle),
                        10000,
                    ),
                ),
                fuzzy: 0,
                name: internal_def(index as int).name@,
            },
        )
    } else {
        None
    }
}

/// The candidates among the internal commands, command by command.
pub open spec fn internal_keys(needle: Seq<char>) -> Seq<Option<RankKey>> {
    Seq::new(INTERNAL_COMMANDS as nat, |i: int| internal_key(i as usize, needle))
}

/// The internal commands that match, best first.
pub open spec fn internal_results(query: Seq<char>) -> Seq<SearchItem> {
    internal_items(ordered(internal_keys(internal_needle(query))))
}

fn rank_internal(def: &InternalCommandDef, index: usize, needle: &Vec<char>) -> (r: Option<Ranked>)
    requires
        index < INTERNAL_COMMANDS,
        *def == internal_def(index as int),
    ensures
        match r {
            Some(k) => Some(k.key()) == internal_key(index, needle@),
            None => internal_key(index, needle@) is None,
        },
{
    let mut text = chars_of(def.name);
    text.push(' ');
    let description = chars_of(def.description);
    append_chars(&mut text, &description);
    assert(text@ =~= def.name@ + seq![' '] + def.description@);
    let joined = string_of(&text);
    let lower = joined.as_str().to_lowercase();
    let hay = chars_of(lower.as_str());
    let fuzzy: i64 = if needle.len() == 0 {
        1
    } else {
        fuzzy_match_score(&hay, needle)
    };
    let held = has_text(&hay, needle);
    if needle.len() == 0 || fuzzy > 0 || held {
        let bonus: i128 = if needle.len() > 0 && held {
            10000
        } else {
            0
        };
        let total = clamp_to_i64(clamp_to_i64(fuzzy as i128 * 10) as i128 + bonus);
        Some(Ranked { index, total, fuzzy: 0, name: chars_of(def.name) })
    } else {
        None
    }
}

/// Ranks the internal commands for a query that starts with a slash.
pub fn rank_internal_commands(query: &Vec<char>) -> (out: Vec<SearchItem>)
    ensures
        out@ == internal_results(query@),
{
    let front = strip_start_chars(query, CharClass::Whitespace);
    let bare = strip_start_chars(&front, CharClass::Is('/'));
    let inner = trim_chars(&bare);
    let inner_text = string_of(&inner);
    let lower = inner_text.as_str().to_lowercase();
    let needle = chars_of(lower.as_str());
    assert(needle@ == internal_needle(query@));
    let ghost all = internal_keys(needle@);
    let defs = internal_commands();
    let mut sorted: Vec<Ranked> = Vec::new();
    let mut i: usize = 0;
    assert(keys(sorted@) =~= ordered(all.take(0)));
    while i < defs.len()
        invariant
            i <= defs.len(),
            defs@.len() == INTERNAL_COMMANDS,
            forall|j: int| 0 <= j < INTERNAL_COMMANDS ==> defs@[j] == internal_def(j),
            all == internal_keys(needle@),
            keys(sorted@) == ordered(all.take(i as int)),
        decreases defs.len() - i,
    {
        proof {
            let next = all.take(i + 1);
            assert(next.drop_last() == all.take(i as int));
            assert(next.last() == all[i as int]);
        }
        match rank_internal(&defs[i], i, &needle) {
            Some(k) => insert_ranked(&mut sorted, k),
            None => {},
        }
        i += 1;
    }
    assert(all.take(defs.len() as int) == all);
    items_of(&sorted, true)
}

// ---------------------------------------------------------------------------
// The whole
// ---------------------------------------------------------------------------

/// The results of a query: internal commands for a query that starts with a
/// slash; nothing for a selector that stands for no provider; else the
/// matching catalog entries of the selected provider, best first.
pub open spec fn search_results(
    commands: Seq<CommandEntry>,
    query: Seq<char>,
    aliases: Seq<(String, String)>,
    usage: Seq<(String, u64)>,
    ranking: RankingSettings,
) -> Seq<SearchItem> {
    if is_internal(query) {
        internal_results(query)
    } else {
        let chosen = selection(query, aliases, unaliased_names(commands, aliases));
        if chosen.unknown {
            Seq::empty()
        } else {
            command_results(commands, chosen.rest, chosen.provider, usage, ranking)
        }
    }
}

/// Computes the ordered results of a query from the catalog, the aliases,
/// the usage counts and the ranking settings.
pub fn find_results(
    commands: &Vec<CommandEntry>,
    query: &str,
    aliases: &Vec<(String, String)>,
    usage: &Vec<(String, u64)>,
    ranking: RankingSettings,
) -> (out: Vec<SearchItem>)
    ensures
        out@ == search_results(commands@, query@, aliases@, usage@, ranking),
{
    let chars = chars_of(query);
    if is_internal_chars(&chars) {
        return rank_internal_commands(&chars);
    }
    let names = provider_names_without_alias(commands, aliases);
    let chosen = select_chars(&chars, aliases, &names);
    if chosen.unknown {
        return Vec::new();
    }
    rank_commands(commands, &chosen.rest, &chosen.provider, usage, ranking)
}

} // verus!
