//! From the configuration to the catalog: which commands are in scope, and
//! what a configured command becomes.

use crate::config::{
    CommandConfig, LoadedConfig, ParamConfig, ParamLiteralConfig, ParamTypeConfig,
};
use crate::model::{CommandEntry, CommandSource, ParamSpec, ParamType};
use crate::paths::{path_is_absolute, path_join};
use crate::rank::text_of;
use crate::text::{
    ascii_lowercase, chars_of, same_chars, string_of, to_ascii_lowercase, trim_chars, trimmed,
    views,
};
use globset::Glob;
use vstd::prelude::*;
use vstd::string::StringExecFns;

verus! {

// ---------------------------------------------------------------------------
// Outside calls
// ---------------------------------------------------------------------------

/// Scope patterns longer than this many characters are refused unread.
pub const GLOB_PATTERN_LIMIT: usize = 1024;

/// Scope patterns with more opening braces than this are refused unread.
pub const GLOB_BRACE_LIMIT: usize = 32;

/// How many times `c` occurs in `s`.
pub open spec fn count_of(s: Seq<char>, c: char) -> nat
    decreases s.len(),
{
    if s.len() == 0 {
        0
    } else {
        count_of(s.drop_last(), c) + if s.last() == c {
            1nat
        } else {
            0nat
        }
    }
}

/// Whether a pattern is small enough to be handed to the glob matcher.
pub open spec fn glob_fits(pattern: Seq<char>) -> bool {
    pattern.len() <= GLOB_PATTERN_LIMIT && count_of(pattern, '{') <= GLOB_BRACE_LIMIT
}

/// `Glob::new`, `Glob::compile_matcher` and `GlobMatcher::is_match` of
/// globset, in this order: whether the pattern matches the path, or the
/// text of the error that refuses the pattern. Nothing is claimed of the
/// result. `compile_matcher` panics where the expression that it compiles is
/// over the size or nesting limit of the matcher; the bounds on the length
/// of the pattern and on its braces, which alone nest, keep it far below both.
#[verifier::external_body]
fn glob_is_match(pattern: &str, path: &str) -> (r: Result<bool, String>)
    requires
        glob_fits(pattern@),
{
    match Glob::new(pattern) {
        Ok(glob) => Ok(glob.compile_matcher().is_match(path)),
        Err(error) => Err(error.to_string()),
    }
}

// ---------------------------------------------------------------------------
// Literals
// ---------------------------------------------------------------------------

/// A word as a truth value: `true`, `t`, `1`, `yes`, `y`, `on` and `false`,
/// `f`, `0`, `no`, `n`, `off`, trimmed and in any ASCII case.
pub open spec fn bool_word(input: Seq<char>) -> Option<bool> {
    let word = ascii_lowercase(trimmed(input));
    if word == "true"@ || word == "t"@ || word == "1"@ || word == "yes"@ || word == "y"@ || word
        == "on"@ {
        Some(true)
    } else if word == "false"@ || word == "f"@ || word == "0"@ || word == "no"@ || word == "n"@
        || word == "off"@ {
        Some(false)
    } else {
        None
    }
}

fn is_word(text: &Vec<char>, word: &str) -> (r: bool)
    ensures
        r == (text@ == word@),
{
    let w = chars_of(word);
    same_chars(text, &w)
}

/// Reads a word as a truth value.
pub fn parse_bool_string(input: &str) -> (r: Option<bool>)
    ensures
        r == bool_word(input@),
{
    let chars = chars_of(input);
    let inner = trim_chars(&chars);
    let word = to_ascii_lowercase(&inner);
    if is_word(&word, "true") || is_word(&word, "t") || is_word(&word, "1") || is_word(&word, "yes")
        || is_word(&word, "y") || is_word(&word, "on") {
        Some(true)
    } else if is_word(&word, "false") || is_word(&word, "f") || is_word(&word, "0") || is_word(
        &word,
        "no",
    ) || is_word(&word, "n") || is_word(&word, "off") {
        Some(false)
    } else {
        None
    }
}

/// A literal as text: a truth value is written `true` or `false`.
pub open spec fn literal_text(literal: Option<ParamLiteralConfig>) -> Option<Seq<char>> {
    match literal {
        Some(ParamLiteralConfig::String(value)) => Some(value@),
        Some(ParamLiteralConfig::Bool(value)) => Some(
            if value {
                "true"@
            } else {
                "false"@
            },
        ),
        None => None,
    }
}

/// A literal as a truth value: a text counts where it is a word for one.
pub open spec fn literal_flag(literal: Option<ParamLiteralConfig>) -> Option<bool> {
    match literal {
        Some(ParamLiteralConfig::Bool(value)) => Some(value),
        Some(ParamLiteralConfig::String(value)) => bool_word(value@),
        None => None,
    }
}

/// A configured literal as text.
pub fn literal_as_string(literal: &Option<ParamLiteralConfig>) -> (r: Option<String>)
    ensures
        text_of(r) == literal_text(*literal),
{
    match literal {
        Some(ParamLiteralConfig::String(value)) => Some(value.clone()),
        Some(ParamLiteralConfig::Bool(value)) => Some(
            if *value {
                "true".to_owned()
            } else {
                "false".to_owned()
            },
        ),
        None => None,
    }
}

/// A configured literal as a truth value.
pub fn literal_as_bool(literal: &Option<ParamLiteralConfig>) -> (r: Option<bool>)
    ensures
        r == literal_flag(*literal),
{
    match literal {
        Some(ParamLiteralConfig::Bool(value)) => Some(*value),
        Some(ParamLiteralConfig::String(value)) => parse_bool_string(value.as_str()),
        None => None,
    }
}

// ---------------------------------------------------------------------------
// Commands
// ---------------------------------------------------------------------------

/// The token of a flag with this name.
pub open spec fn token_of(name: Seq<char>) -> Seq<char> {
    if name.len() > 0 && name[0] == '-' {
        name
    } else {
        seq!['-', '-'] + name
    }
}

/// The question that a parameter asks where the configuration gives none.
pub open spec fn default_prompt(param: ParamConfig) -> Seq<char> {
    match param.kind {
        ParamTypeConfig::Value => param.name@ + seq![':'],
        ParamTypeConfig::Flag => "Enable "@ + token_of(param.name@) + seq!['?'],
    }
}

/// Whether `spec` is what the configured parameter `param` becomes.
pub open spec fn param_of(param: ParamConfig, spec: ParamSpec) -> bool {
    &&& spec.name@ == param.name@
    &&& (spec.kind is Flag) == (param.kind is Flag)
    &&& spec.prompt@ == match param.prompt {
        Some(p) => p@,
        None => default_prompt(param),
    }
    &&& text_of(spec.placeholder) == text_of(param.placeholder)
    &&& text_of(spec.default_value) == literal_text(param.default)
    &&& text_of(spec.value_value) == literal_text(param.value)
    &&& spec.default_flag == literal_flag(param.default)
    &&& spec.value_flag == literal_flag(param.value)
    &&& spec.required == param.required
    &&& spec.prompt_in_tui == (param.prompt is Some)
}

fn clone_text(text: &Option<String>) -> (out: Option<String>)
    ensures
        text_of(out) == text_of(*text),
{
    match text {
        Some(t) => Some(t.clone()),
        None => None,
    }
}

/// What a configured parameter becomes.
pub fn param_from_config(param: &ParamConfig) -> (spec: ParamSpec)
    ensures
        param_of(*param, spec),
{
    let kind = match param.kind {
        ParamTypeConfig::Value => ParamType::Value,
        ParamTypeConfig::Flag => ParamType::Flag,
    };
    let prompt = match &param.prompt {
        Some(p) => p.clone(),
        None => match param.kind {
            ParamTypeConfig::Value => {
                let mut chars = chars_of(param.name.as_str());
                chars.push(':');
                assert(chars@ =~= param.name@ + seq![':']);
                string_of(&chars)
            },
            ParamTypeConfig::Flag => {
                let mut chars = chars_of("Enable ");
                let name = chars_of(param.name.as_str());
                if !(name.len() > 0 && name[0] == '-') {
                    chars.push('-');
                    chars.push('-');
                }
                crate::text::append_chars(&mut chars, &name);
                chars.push('?');
                assert(chars@ =~= "Enable "@ + token_of(param.name@) + seq!['?']);
                string_of(&chars)
            },
        },
    };
    ParamSpec {
        name: param.name.clone(),
        kind,
        prompt,
        placeholder: clone_text(&param.placeholder),
        default_value: literal_as_string(&param.default),
        value_value: literal_as_string(&param.value),
        default_flag: literal_as_bool(&param.default),
        value_flag: literal_as_bool(&param.value),
        required: param.required,
        prompt_in_tui: param.prompt.is_some(),
    }
}

/// Whether `entry` is what the configured command becomes. Where the
/// configuration names a working directory the entry has one: the
/// directory itself where it is absolute, else joined to the directory
/// that the launcher was started in.
pub open spec fn entry_of(command: CommandConfig, entry: CommandEntry) -> bool {
    &&& entry.name@ == command.name@
    &&& text_of(entry.description) == text_of(command.description)
    &&& entry.template@ == command.run@
    &&& entry.source is Config
    &&& (entry.working_dir is Some) == (command.working_dir is Some)
    &&& entry.params@.len() == command.params@.len()
    &&& forall|i: int|
        0 <= i < command.params@.len() ==> param_of(#[trigger] command.params@[i], entry.params@[i])
}

/// The working directory of a command: `raw` where the platform calls it
/// absolute, else what the platform makes of `raw` under `cwd`.
pub fn choose_working_dir(raw: &str, absolute: bool, joined: String) -> (dir: String)
    ensures
        absolute ==> dir@ == raw@,
        !absolute ==> dir@ == joined@,
{
    if absolute {
        raw.to_owned()
    } else {
        joined
    }
}

/// What a configured command becomes.
pub fn command_from_config(command: &CommandConfig, cwd: &str) -> (entry: CommandEntry)
    ensures
        entry_of(*command, entry),
{
    let working_dir = match &command.working_dir {
        Some(raw) => Some(
            choose_working_dir(
                raw.as_str(),
                path_is_absolute(raw.as_str()),
                path_join(cwd, raw.as_str()),
            ),
        ),
        None => None,
    };
    let mut params: Vec<ParamSpec> = Vec::new();
    let mut i: usize = 0;
    while i < command.params.len()
        invariant
            i <= command.params.len(),
            params@.len() == i,
            forall|j: int| 0 <= j < i ==> param_of(#[trigger] command.params@[j], params@[j]),
        decreases command.params.len() - i,
    {
        params.push(param_from_config(&command.params[i]));
        i += 1;
    }
    CommandEntry {
        name: command.name.clone(),
        description: clone_text(&command.description),
        template: command.run.clone(),
        params,
        source: CommandSource::Config,
        working_dir,
    }
}

// ---------------------------------------------------------------------------
// Scopes
// ---------------------------------------------------------------------------

/// Why the scopes of a command could not be read.
#[derive(Debug, Clone)]
pub enum ScopeError {
    /// The pattern is no glob; `message` says why.
    InvalidPattern { pattern: String, message: String },
    /// The pattern is longer than `GLOB_PATTERN_LIMIT` or has more opening
    /// braces than `GLOB_BRACE_LIMIT`.
    PatternTooLong { pattern: String },
}

/// A scope error as plain values.
pub enum ScopeErrorView {
    InvalidPattern { pattern: Seq<char>, message: Seq<char> },
    PatternTooLong { pattern: Seq<char> },
}

/// Tests whether a pattern is small enough to be handed to the glob matcher.
pub fn glob_pattern_fits(pattern: &str) -> (r: bool)
    ensures
        r == glob_fits(pattern@),
{
    let chars = chars_of(pattern);
    if chars.len() > GLOB_PATTERN_LIMIT {
        return false;
    }
    let mut braces: usize = 0;
    let mut i: usize = 0;
    assert(chars@.take(0) =~= Seq::empty());
    while i < chars.len()
        invariant
            i <= chars.len() <= GLOB_PATTERN_LIMIT,
            braces == count_of(chars@.take(i as int), '{'),
            braces <= i,
        decreases chars.len() - i,
    {
        proof {
            let next = chars@.take(i + 1);
            assert(next.drop_last() == chars@.take(i as int));
            assert(next.last() == chars@[i as int]);
        }
        if chars[i] == '{' {
            braces += 1;
        }
        i += 1;
    }
    assert(chars@.take(chars.len() as int) == chars@);
    braces <= GLOB_BRACE_LIMIT
}

impl ScopeError {
    pub open spec fn view(self) -> ScopeErrorView {
        match self {
            ScopeError::InvalidPattern { pattern, message } => ScopeErrorView::InvalidPattern {
                pattern: pattern@,
                message: message@,
            },
            ScopeError::PatternTooLong { pattern } => ScopeErrorView::PatternTooLong {
                pattern: pattern@,
            },
        }
    }

    pub open spec fn text(self) -> Seq<char> {
        match self {
            ScopeError::InvalidPattern { pattern, message } => "invalid scope pattern: "@ + pattern@
                + ": "@ + message@,
            ScopeError::PatternTooLong { pattern } => "scope pattern too long: "@ + pattern@,
        }
    }

    /// The error in words.
    pub fn message(&self) -> (out: String)
        ensures
            out@ == self.text(),
    {
        match self {
            ScopeError::InvalidPattern { pattern, message } => {
                let mut out = "invalid scope pattern: ".to_owned();
                out.append(pattern.as_str());
                out.append(": ");
                out.append(message.as_str());
                out
            },
            ScopeError::PatternTooLong { pattern } => {
                let mut out = "scope pattern too long: ".to_owned();
                out.append(pattern.as_str());
                out
            },
        }
    }
}

/// Whether the pattern is one of the words that stand for a kind of project,
/// and a project of that kind was found.
pub open spec fn special_scope(pattern: Seq<char>, laravel: bool, composer: bool) -> bool {
    let word = ascii_lowercase(trimmed(pattern));
    if word == "laravel"@ || word == "project:laravel"@ || word == "framework:laravel"@ {
        laravel
    } else if word == "composer"@ || word == "project:composer"@ || word == "tool:composer"@ {
        composer
    } else {
        false
    }
}

/// Whether the pattern is a word for a project that was found.
pub fn matches_special_scope(pattern: &str, laravel_root: &Option<String>, composer_root: &Option<String>) -> (r:
    bool)
    ensures
        r == special_scope(pattern@, *laravel_root is Some, *composer_root is Some),
{
    let chars = chars_of(pattern);
    let inner = trim_chars(&chars);
    let word = to_ascii_lowercase(&inner);
    if is_word(&word, "laravel") || is_word(&word, "project:laravel") || is_word(
        &word,
        "framework:laravel",
    ) {
        laravel_root.is_some()
    } else if is_word(&word, "composer") || is_word(&word, "project:composer") || is_word(
        &word,
        "tool:composer",
    ) {
        composer_root.is_some()
    } else {
        false
    }
}

/// How many paths a command's scopes are matched against.
pub open spec fn candidate_count(laravel: bool, composer: bool) -> nat {
    (1 + if laravel {
        4nat
    } else {
        0nat
    } + if composer {
        2nat
    } else {
        0nat
    }) as nat
}

/// The paths that the scopes of a command are matched against: the working
/// directory; the root of a Laravel project with three paths under it; the
/// root of a Composer project with its `composer.json`.
pub fn scope_match_candidates(cwd: &str, laravel_root: &Option<String>, composer_root: &Option<String>) -> (out:
    Vec<String>)
    ensures
        out@.len() == candidate_count(*laravel_root is Some, *composer_root is Some),
        out@[0]@ == cwd@,
        *laravel_root matches Some(root) ==> out@[1]@ == root@,
        *composer_root matches Some(root) ==> out@[out@.len() - 2]@ == root@,
{
    let mut out: Vec<String> = Vec::new();
    out.push(cwd.to_owned());
    match laravel_root {
        Some(root) => {
            out.push(root.clone());
            let app = path_join(root.as_str(), "app");
            out.push(path_join(root.as_str(), "app"));
            out.push(path_join(app.as_str(), "__fzc_scope_marker__"));
            out.push(path_join(root.as_str(), "artisan"));
        },
        None => {},
    }
    match composer_root {
        Some(root) => {
            out.push(root.clone());
            out.push(path_join(root.as_str(), "composer.json"));
        },
        None => {},
    }
    out
}

/// What the glob matcher found for one pattern.
pub open spec fn glob_views(globs: Seq<Result<bool, String>>) -> Seq<Result<bool, Seq<char>>> {
    Seq::new(
        globs.len(),
        |i: int|
            match globs[i] {
                Ok(b) => Ok(b),
                Err(m) => Err(m@),
            },
    )
}

/// Whether one of the patterns puts the command in scope, given for each
/// pattern what the glob matcher found: the first pattern that is a word
/// for a project that was found, that is refused, or that matches a path
/// decides.
pub open spec fn scope_decided(
    patterns: Seq<Seq<char>>,
    laravel: bool,
    composer: bool,
    globs: Seq<Result<bool, Seq<char>>>,
) -> Result<bool, ScopeErrorView>
    decreases patterns.len(),
{
    if patterns.len() == 0 || globs.len() == 0 {
        Ok(false)
    } else if special_scope(patterns[0], laravel, composer) {
        Ok(true)
    } else if !glob_fits(patterns[0]) {
        Err(ScopeErrorView::PatternTooLong { pattern: patterns[0] })
    } else {
        match globs[0] {
            Err(message) => Err(ScopeErrorView::InvalidPattern { pattern: patterns[0], message }),
            Ok(true) => Ok(true),
            Ok(false) => scope_decided(patterns.drop_first(), laravel, composer, globs.drop_first()),
        }
    }
}

/// A command without scopes is in scope everywhere.
pub open spec fn scope_matched(
    patterns: Seq<Seq<char>>,
    laravel: bool,
    composer: bool,
    globs: Seq<Result<bool, Seq<char>>>,
) -> Result<bool, ScopeErrorView> {
    if patterns.len() == 0 {
        Ok(true)
    } else {
        scope_decided(patterns, laravel, composer, globs)
    }
}

/// The outcome of a scope decision as plain values.
pub open spec fn scope_view(r: Result<bool, ScopeError>) -> Result<bool, ScopeErrorView> {
    match r {
        Ok(b) => Ok(b),
        Err(e) => Err(e.view()),
    }
}

/// Decides the scope of a command from what the glob matcher found for
/// each of its patterns.
pub fn decide_scope(patterns: &Vec<String>, laravel: bool, composer: bool, globs: &Vec<Result<bool, String>>) -> (r:
    Result<bool, ScopeError>)
    requires
        globs@.len() == patterns@.len(),
    ensures
        scope_view(r) == scope_matched(views(patterns@), laravel, composer, glob_views(globs@)),
{
    if patterns.len() == 0 {
        return Ok(true);
    }
    let ghost ps = views(patterns@);
    let ghost gs = glob_views(globs@);
    let some: Option<String> = Some(String::new());
    let none: Option<String> = None;
    let mut i: usize = 0;
    assert(ps.skip(0) == ps && gs.skip(0) == gs);
    while i < patterns.len()
        invariant
            i <= patterns.len(),
            globs@.len() == patterns@.len(),
            ps == views(patterns@),
            gs == glob_views(globs@),
            some is Some,
            none is None,
            scope_decided(ps, laravel, composer, gs) == scope_decided(
                ps.skip(i as int),
                laravel,
                composer,
                gs.skip(i as int),
            ),
        decreases patterns.len() - i,
    {
        proof {
            let p = ps.skip(i as int);
            let g = gs.skip(i as int);
            assert(p[0] == patterns@[i as int]@);
            assert(g[0] == gs[i as int]);
            assert(p.drop_first() == ps.skip(i + 1));
            assert(g.drop_first() == gs.skip(i + 1));
        }
        let special = matches_special_scope(
            patterns[i].as_str(),
            if laravel {
                &some
            } else {
                &none
            },
            if composer {
                &some
            } else {
                &none
            },
        );
        if special {
            return Ok(true);
        }
        if !glob_pattern_fits(patterns[i].as_str()) {
            return Err(ScopeError::PatternTooLong { pattern: patterns[i].clone() });
        }
        match &globs[i] {
            Err(message) => {
                return Err(
                    ScopeError::InvalidPattern {
                        pattern: patterns[i].clone(),
                        message: message.clone(),
                    },
                );
            },
            Ok(found) => {
                if *found {
                    return Ok(true);
                }
            },
        }
        i += 1;
    }
    Ok(false)
}

/// What the glob matcher found for a pattern, path by path, as one
/// finding: the first that is an error or a match decides, and where there
/// is none the pattern matches no path.
pub open spec fn first_decisive(found: Seq<Result<bool, Seq<char>>>) -> Result<bool, Seq<char>>
    decreases found.len(),
{
    if found.len() == 0 {
        Ok(false)
    } else {
        match found[0] {
            Ok(false) => first_decisive(found.drop_first()),
            decided => decided,
        }
    }
}

/// The finding at `at` decides where every finding before it is no match
/// and it is itself an error or a match.
pub proof fn lemma_first_decisive_at(found: Seq<Result<bool, Seq<char>>>, at: int)
    requires
        0 <= at < found.len(),
        forall|k: int| 0 <= k < at ==> #[trigger] found[k] == Ok::<bool, Seq<char>>(false),
        found[at] != Ok::<bool, Seq<char>>(false),
    ensures
        first_decisive(found) == found[at],
    decreases at,
{
    if at > 0 {
        let rest = found.drop_first();
        assert(found[0] == Ok::<bool, Seq<char>>(false));
        assert(rest[at - 1] == found[at]);
        assert forall|k: int| 0 <= k < at - 1 implies #[trigger] rest[k] == Ok::<bool, Seq<char>>(
            false,
        ) by {
            assert(rest[k] == found[k + 1]);
        }
        lemma_first_decisive_at(rest, at - 1);
    }
}

/// Where no path matches and no call fails, the pattern matches no path.
pub proof fn lemma_none_decisive(found: Seq<Result<bool, Seq<char>>>)
    requires
        forall|k: int| 0 <= k < found.len() ==> #[trigger] found[k] == Ok::<bool, Seq<char>>(false),
    ensures
        first_decisive(found) == Ok::<bool, Seq<char>>(false),
    decreases found.len(),
{
    if found.len() > 0 {
        let rest = found.drop_first();
        assert(found[0] == Ok::<bool, Seq<char>>(false));
        assert forall|k: int| 0 <= k < rest.len() implies #[trigger] rest[k] == Ok::<bool, Seq<char>>(
            false,
        ) by {
            assert(rest[k] == found[k + 1]);
        }
        lemma_none_decisive(rest);
    }
}

/// One finding of the glob matcher as plain values.
pub open spec fn glob_view(r: Result<bool, String>) -> Result<bool, Seq<char>> {
    match r {
        Ok(b) => Ok(b),
        Err(m) => Err(m@),
    }
}

/// What the glob matcher finds for one pattern over the candidate paths:
/// it is asked path by path, up to the first path for which it fails or
/// finds a match, and the result is `first_decisive` of what it found.
/// Without a path the pattern matches nothing.
fn glob_over(pattern: &str, candidates: &Vec<String>) -> (r: Result<bool, String>)
    requires
        glob_fits(pattern@),
    ensures
        exists|found: Seq<Result<bool, Seq<char>>>|
            found.len() == candidates@.len() && glob_view(r) == #[trigger] first_decisive(found),
        candidates@.len() == 0 ==> r == Ok::<bool, String>(false),
{
    let ghost quiet: Result<bool, Seq<char>> = Ok(false);
    let mut i: usize = 0;
    while i < candidates.len()
        invariant
            i <= candidates.len(),
            glob_fits(pattern@),
            quiet == Ok::<bool, Seq<char>>(false),
        decreases candidates.len() - i,
    {
        let outcome = glob_is_match(pattern, candidates[i].as_str());
        let decided = match &outcome {
            Err(_) => true,
            Ok(found) => *found,
        };
        if decided {
            proof {
                let at = i as int;
                let seen = glob_view(outcome);
                let found = Seq::new(
                    candidates@.len(),
                    |k: int|
                        if k == at {
                            seen
                        } else {
                            quiet
                        },
                );
                lemma_first_decisive_at(found, at);
                assert(glob_view(outcome) == first_decisive(found));
            }
            return outcome;
        }
        i += 1;
    }
    proof {
        let found = Seq::new(candidates@.len(), |k: int| quiet);
        lemma_none_decisive(found);
        assert(glob_view(Ok::<bool, String>(false)) == first_decisive(found));
    }
    Ok(false)
}

/// Whether a command with these scope patterns is in scope in `cwd`, given
/// the roots of the projects that were found round it. The glob matcher is
/// asked for every pattern within the length limit; the decision is that of
/// `scope_matched` on what it found.
pub fn matches_scope(
    patterns: &Vec<String>,
    cwd: &str,
    laravel_root: &Option<String>,
    composer_root: &Option<String>,
) -> (r: Result<bool, ScopeError>)
    ensures
        patterns@.len() == 0 ==> r == Ok::<bool, ScopeError>(true),
        exists|globs: Seq<Result<bool, Seq<char>>>|
            globs.len() == patterns@.len() && scope_view(r) == #[trigger] scope_matched(
                views(patterns@),
                *laravel_root is Some,
                *composer_root is Some,
                globs,
            ),
{
    if patterns.len() == 0 {
        assert(scope_view(Ok::<bool, ScopeError>(true)) == scope_matched(
            views(patterns@),
            *laravel_root is Some,
            *composer_root is Some,
            Seq::empty(),
        ));
        return Ok(true);
    }
    let candidates = scope_match_candidates(cwd, laravel_root, composer_root);
    let mut globs: Vec<Result<bool, String>> = Vec::new();
    let mut i: usize = 0;
    while i < patterns.len()
        invariant
            i <= patterns.len(),
            globs@.len() == i,
        decreases patterns.len() - i,
    {
        if glob_pattern_fits(patterns[i].as_str()) {
            globs.push(glob_over(patterns[i].as_str(), &candidates));
        } else {
            globs.push(Ok(false));
        }
        i += 1;
    }
    decide_scope(patterns, laravel_root.is_some(), composer_root.is_some(), &globs)
}

// ---------------------------------------------------------------------------
// The catalog
// ---------------------------------------------------------------------------

pub struct CommandCatalog {
    commands: Vec<CommandEntry>,
}

/// The entries of the commands that are kept, in the order of the configuration.
pub open spec fn kept_entries(commands: Seq<CommandConfig>, keep: Seq<bool>, entries: Seq<CommandEntry>) -> bool
    decreases commands.len(),
{
    if commands.len() == 0 || keep.len() == 0 {
        entries.len() == 0
    } else if keep.last() {
        &&& entries.len() > 0
        &&& entry_of(commands.last(), entries.last())
        &&& kept_entries(commands.drop_last(), keep.drop_last(), entries.drop_last())
    } else {
        kept_entries(commands.drop_last(), keep.drop_last(), entries)
    }
}

/// Whether `entries` are the entries of the commands that `keep` marks, and
/// `keep` marks every command without scopes.
pub open spec fn selected(commands: Seq<CommandConfig>, keep: Seq<bool>, entries: Seq<CommandEntry>) -> bool {
    &&& keep.len() == commands.len()
    &&& forall|i: int| 0 <= i < keep.len() && commands[i].scopes@.len() == 0 ==> #[trigger] keep[i]
    &&& kept_entries(commands, keep, entries)
}

/// Whether the scopes of a command can be decided this way: there is
/// something that the glob matcher may have found for its patterns that
/// gives this decision.
pub open spec fn scope_outcome(
    command: CommandConfig,
    laravel: bool,
    composer: bool,
    outcome: Result<bool, ScopeErrorView>,
) -> bool {
    exists|globs: Seq<Result<bool, Seq<char>>>|
        globs.len() == command.scopes@.len() && outcome == #[trigger] scope_matched(
            views(command.scopes@),
            laravel,
            composer,
            globs,
        )
}

/// Whether every command is kept or left out as its scopes decide.
pub open spec fn scopes_decided(commands: Seq<CommandConfig>, laravel: bool, composer: bool, keep: Seq<bool>) -> bool {
    forall|i: int|
        0 <= i < keep.len() && i < commands.len() ==> scope_outcome(
            commands[i],
            laravel,
            composer,
            Ok(#[trigger] keep[i]),
        )
}

impl CommandCatalog {
    pub closed spec fn view(self) -> Seq<CommandEntry> {
        self.commands@
    }

    /// A catalog without commands.
    pub fn empty() -> (catalog: Self)
        ensures
            catalog@ == Seq::<CommandEntry>::empty(),
    {
        CommandCatalog { commands: Vec::new() }
    }

    /// The entries of the configured commands that are in scope. The glob
    /// matcher decides on the scopes; a command without scopes is always kept.
    pub fn from_config(
        loaded: &LoadedConfig,
        cwd: &str,
        laravel_root: &Option<String>,
        composer_root: &Option<String>,
    ) -> (r: Result<Self, ScopeError>)
        ensures
            r is Ok ==> exists|keep: Seq<bool>|
                #[trigger] selected(loaded.config.commands@, keep, r->Ok_0@) && scopes_decided(
                    loaded.config.commands@,
                    *laravel_root is Some,
                    *composer_root is Some,
                    keep,
                ),
            r is Err ==> exists|i: int|
                0 <= i < loaded.config.commands@.len() && scope_outcome(
                    #[trigger] loaded.config.commands@[i],
                    *laravel_root is Some,
                    *composer_root is Some,
                    Err(r->Err_0.view()),
                ),
    {
        let mut commands: Vec<CommandEntry> = Vec::new();
        let ghost mut marks: Seq<bool> = Seq::empty();
        let ghost all = loaded.config.commands@;
        let mut i: usize = 0;
        assert(all.take(0) =~= Seq::empty());
        while i < loaded.config.commands.len()
            invariant
                i <= loaded.config.commands.len(),
                all == loaded.config.commands@,
                marks.len() == i,
                forall|j: int| 0 <= j < i && all[j].scopes@.len() == 0 ==> #[trigger] marks[j],
                scopes_decided(all, *laravel_root is Some, *composer_root is Some, marks),
                kept_entries(all.take(i as int), marks, commands@),
            decreases loaded.config.commands.len() - i,
        {
            let command = &loaded.config.commands[i];
            let ghost before = commands@;
            let ghost old_marks = marks;
            let decision = matches_scope(&command.scopes, cwd, laravel_root, composer_root);
            assert(scope_outcome(
                all[i as int],
                *laravel_root is Some,
                *composer_root is Some,
                scope_view(decision),
            ));
            let matched = match decision {
                Ok(m) => m,
                Err(e) => {
                    let failed: Result<CommandCatalog, ScopeError> = Err(e);
                    return failed;
                },
            };
            if matched {
                commands.push(command_from_config(command, cwd));
            }
            proof {
                marks = marks.push(matched);
                let next = all.take(i + 1);
                assert(next.drop_last() == all.take(i as int));
                assert(next.last() == all[i as int]);
                assert(marks.drop_last() == old_marks);
                if matched {
                    assert(commands@.drop_last() == before);
                }
            }
            i += 1;
        }
        assert(all.take(all.len() as int) == all);
        let catalog: Result<CommandCatalog, ScopeError> = Ok(CommandCatalog { commands });
        assert(selected(loaded.config.commands@, marks, catalog->Ok_0@));
        catalog
    }

    /// Adds commands at the end.
    pub fn extend(&mut self, commands: Vec<CommandEntry>)
        ensures
            final(self)@ == old(self)@ + commands@,
    {
        let mut commands = commands;
        self.commands.append(&mut commands);
    }

    /// The commands of the catalog.
    pub fn into_vec(self) -> (commands: Vec<CommandEntry>)
        ensures
            commands@ == self@,
    {
        self.commands
    }
}

} // verus!
