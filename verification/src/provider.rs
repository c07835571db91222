//! Commands that are discovered from project tooling. The launcher's shell
//! runs the tools and reads the files; this module reads what they wrote
//! and builds the catalog entries.

use crate::config::ProvidersConfig;
use crate::model::{assign, assigned, pair_views, CommandEntry, CommandSource};
use crate::paths::path_join;
use crate::rank::text_of;
use crate::search::{alias_target, alias_target_of};
use crate::text::{
    append_chars, ascii_lowercase, chars_of, has_prefix, insert_sorted, is_ascii_alphanumeric,
    rows, same_chars, split_tokens, starts_with, string_of, strictly_sorted, strings_of, strip,
    strip_chars, to_ascii_lowercase, tokens, trim_chars, trimmed, views, CharClass,
};
use vstd::prelude::*;
use vstd::string::StringExecFns;

verus! {

// ---------------------------------------------------------------------------
// Shell words
// ---------------------------------------------------------------------------

/// Whether a character can stand in a shell word without quotes.
pub open spec fn is_shell_safe_char(c: char) -> bool {
    is_ascii_alphanumeric(c) || c == '_' || c == '-' || c == '.' || c == '/' || c == ':' || c == '='
        || c == '+' || c == '@' || c == '%'
}

/// Whether a text can stand in a command line without quotes: it is not
/// empty and holds safe characters only.
pub open spec fn is_shell_safe(input: Seq<char>) -> bool {
    input.len() > 0 && forall|i: int| 0 <= i < input.len() ==> is_shell_safe_char(#[trigger] input[i])
}

/// Whether a text can stand in a command line without quotes.
pub fn is_shell_safe_arg(input: &str) -> (r: bool)
    ensures
        r == is_shell_safe(input@),
{
    let chars = chars_of(input);
    if chars.len() == 0 {
        return false;
    }
    let mut i: usize = 0;
    while i < chars.len()
        invariant
            i <= chars.len(),
            chars@ == input@,
            chars@.len() > 0,
            forall|j: int| 0 <= j < i ==> is_shell_safe_char(#[trigger] chars@[j]),
        decreases chars.len() - i,
    {
        let c = chars[i];
        let safe = crate::text::ascii_alphanumeric(c) || c == '_' || c == '-' || c == '.' || c
            == '/' || c == ':' || c == '=' || c == '+' || c == '@' || c == '%';
        if !safe {
            assert(!is_shell_safe_char(input@[i as int]));
            return false;
        }
        i += 1;
    }
    true
}

/// The text with every single quote written as `'\''`.
pub open spec fn quotes_escaped(input: Seq<char>) -> Seq<char>
    decreases input.len(),
{
    if input.len() == 0 {
        Seq::empty()
    } else if input.last() == '\'' {
        quotes_escaped(input.drop_last()) + seq!['\'', '\\', '\'', '\'']
    } else {
        quotes_escaped(input.drop_last()).push(input.last())
    }
}

/// The text inside single quotes, as a POSIX shell reads one word.
pub open spec fn single_quoted(input: Seq<char>) -> Seq<char> {
    seq!['\''] + quotes_escaped(input) + seq!['\'']
}

/// Puts a text in single quotes.
pub fn shell_escape_single_quoted(input: &str) -> (out: String)
    ensures
        out@ == single_quoted(input@),
{
    let chars = chars_of(input);
    let mut out: Vec<char> = Vec::new();
    out.push('\'');
    let mut i: usize = 0;
    assert(chars@.take(0) =~= Seq::empty());
    while i < chars.len()
        invariant
            i <= chars.len(),
            out@ == seq!['\''] + quotes_escaped(chars@.take(i as int)),
        decreases chars.len() - i,
    {
        let c = chars[i];
        proof {
            let next = chars@.take(i + 1);
            assert(next.drop_last() == chars@.take(i as int));
            assert(next.last() == c);
        }
        let ghost before = out@;
        if c == '\'' {
            out.push('\'');
            out.push('\\');
            out.push('\'');
            out.push('\'');
            assert(out@ =~= before + seq!['\'', '\\', '\'', '\'']);
        } else {
            out.push(c);
        }
        assert(out@ =~= seq!['\''] + quotes_escaped(chars@.take(i + 1)));
        i += 1;
    }
    assert(chars@.take(chars.len() as int) == chars@);
    out.push('\'');
    string_of(&out)
}

/// A text as one shell word: as it is where that is safe, else in single quotes.
pub open spec fn shell_word(input: Seq<char>) -> Seq<char> {
    if is_shell_safe(input) {
        input
    } else {
        single_quoted(input)
    }
}

/// Writes a text as one shell word.
pub fn shell_escape_arg(input: &str) -> (out: String)
    ensures
        out@ == shell_word(input@),
{
    if is_shell_safe_arg(input) {
        input.to_owned()
    } else {
        shell_escape_single_quoted(input)
    }
}

/// The whitespace-separated words of every option, in order.
pub open spec fn option_tokens(options: Seq<Seq<char>>) -> Seq<Seq<char>>
    decreases options.len(),
{
    if options.len() == 0 {
        Seq::empty()
    } else {
        option_tokens(options.drop_last()) + tokens(options.last(), CharClass::Whitespace)
    }
}

/// Splits the configured options into words.
pub fn tokenize_provider_options(raw_options: &Vec<String>) -> (out: Vec<String>)
    ensures
        views(out@) == option_tokens(views(raw_options@)),
{
    let mut out: Vec<String> = Vec::new();
    let mut i: usize = 0;
    assert(views(raw_options@).take(0) =~= Seq::empty());
    assert(views(out@) =~= Seq::empty());
    while i < raw_options.len()
        invariant
            i <= raw_options.len(),
            views(out@) == option_tokens(views(raw_options@).take(i as int)),
        decreases raw_options.len() - i,
    {
        proof {
            let next = views(raw_options@).take(i + 1);
            assert(next.drop_last() == views(raw_options@).take(i as int));
            assert(next.last() == raw_options@[i as int]@);
        }
        let chars = chars_of(raw_options[i].as_str());
        let parts = split_tokens(&chars, CharClass::Whitespace);
        let ghost start = views(out@);
        let mut k: usize = 0;
        while k < parts.len()
            invariant
                k <= parts.len(),
                views(out@) == start + rows(parts@).take(k as int),
            decreases parts.len() - k,
        {
            let ghost before = views(out@);
            out.push(string_of(&parts[k]));
            assert(views(out@) =~= before.push(parts@[k as int]@));
            assert(rows(parts@).take(k + 1) =~= rows(parts@).take(k as int).push(parts@[k as int]@));
            k += 1;
        }
        assert(rows(parts@).take(parts.len() as int) == rows(parts@));
        i += 1;
    }
    assert(views(raw_options@).take(raw_options.len() as int) == views(raw_options@));
    out
}

/// The words of `words`, each as a shell word and with a space in front.
pub open spec fn shell_words(words: Seq<Seq<char>>) -> Seq<char>
    decreases words.len(),
{
    if words.len() == 0 {
        Seq::empty()
    } else {
        shell_words(words.drop_last()) + seq![' '] + shell_word(words.last())
    }
}

/// The command line that runs a recipe: `just`, the options, the justfile
/// and the recipe, each as one shell word.
pub open spec fn just_command(path: Seq<char>, options: Seq<Seq<char>>, recipe: Seq<char>) -> Seq<char> {
    "just"@ + shell_words(options) + " --justfile "@ + shell_word(path) + seq![' '] + shell_word(
        recipe,
    )
}

/// The command line that runs a recipe.
pub fn build_just_command_template(justfile_path: &str, option_tokens: &Vec<String>, recipe: &str) -> (out:
    String)
    ensures
        out@ == just_command(justfile_path@, views(option_tokens@), recipe@),
{
    let mut out = chars_of("just");
    let mut i: usize = 0;
    assert(views(option_tokens@).take(0) =~= Seq::empty());
    while i < option_tokens.len()
        invariant
            i <= option_tokens.len(),
            out@ == "just"@ + shell_words(views(option_tokens@).take(i as int)),
        decreases option_tokens.len() - i,
    {
        proof {
            let next = views(option_tokens@).take(i + 1);
            assert(next.drop_last() == views(option_tokens@).take(i as int));
            assert(next.last() == option_tokens@[i as int]@);
        }
        let ghost before = out@;
        out.push(' ');
        let word = shell_escape_arg(option_tokens[i].as_str());
        let chars = chars_of(word.as_str());
        append_chars(&mut out, &chars);
        assert(out@ =~= before + seq![' '] + shell_word(option_tokens@[i as int]@));
        assert(out@ =~= "just"@ + shell_words(views(option_tokens@).take(i + 1)));
        i += 1;
    }
    assert(views(option_tokens@).take(option_tokens.len() as int) == views(option_tokens@));
    let flag = chars_of(" --justfile ");
    append_chars(&mut out, &flag);
    let path = shell_escape_arg(justfile_path);
    let path_chars = chars_of(path.as_str());
    append_chars(&mut out, &path_chars);
    out.push(' ');
    let name = shell_escape_arg(recipe);
    let name_chars = chars_of(name.as_str());
    append_chars(&mut out, &name_chars);
    assert(out@ =~= just_command(justfile_path@, views(option_tokens@), recipe@));
    string_of(&out)
}

// ---------------------------------------------------------------------------
// Listings
// ---------------------------------------------------------------------------

/// Whether one of the first `upto` items is `name`.
pub open spec fn listed(items: Seq<Option<Seq<char>>>, upto: int, name: Seq<char>) -> bool {
    exists|j: int| 0 <= j < upto && j < items.len() && #[trigger] items[j] == Some(name)
}

proof fn lemma_listed_step(items: Seq<Option<Seq<char>>>, k: int, name: Seq<char>)
    requires
        0 <= k < items.len(),
    ensures
        listed(items, k + 1, name) <==> (listed(items, k, name) || items[k] == Some(name)),
{
    if listed(items, k + 1, name) {
        let j = choose|j: int| 0 <= j < k + 1 && j < items.len() && #[trigger] items[j] == Some(name);
        if j < k {
            assert(listed(items, k, name));
        }
    }
    if listed(items, k, name) {
        let j = choose|j: int| 0 <= j < k && j < items.len() && #[trigger] items[j] == Some(name);
        assert(0 <= j < k + 1 && items[j] == Some(name));
    }
    if items[k] == Some(name) {
        assert(0 <= k < k + 1);
    }
}

/// Adds the item with index `k` to the names that were found, where it is one.
fn note_item(
    found: &mut Vec<Vec<char>>,
    item: Option<Vec<char>>,
    Ghost(start): Ghost<Seq<Seq<char>>>,
    Ghost(items): Ghost<Seq<Option<Seq<char>>>>,
    Ghost(k): Ghost<int>,
)
    requires
        strictly_sorted(rows(old(found)@)),
        0 <= k < items.len(),
        match item {
            Some(n) => items[k] == Some(n@),
            None => items[k] is None,
        },
        forall|name: Seq<char>|
            #[trigger] rows(old(found)@).contains(name) <==> (start.contains(name) || listed(items, k, name)),
    ensures
        strictly_sorted(rows(final(found)@)),
        forall|name: Seq<char>|
            #[trigger] rows(final(found)@).contains(name) <==> (start.contains(name) || listed(
                items,
                k + 1,
                name,
            )),
{
    let ghost before = rows(found@);
    let ghost added: Option<Seq<char>> = items[k];
    match item {
        Some(n) => {
            insert_sorted(found, n);
        },
        None => {},
    }
    proof {
        let after = rows(found@);
        assert forall|name: Seq<char>| #[trigger] after.contains(name) <==> (start.contains(name) || listed(
            items,
            k + 1,
            name,
        )) by {
            lemma_listed_step(items, k, name);
            assert(before.contains(name) <==> (start.contains(name) || listed(items, k, name)));
            assert(after.contains(name) <==> (before.contains(name) || added == Some(name)));
        }
    }
}

/// The lines of a text: what stands between line feeds, empty lines left out.
pub open spec fn lines_of(raw: Seq<char>) -> Seq<Seq<char>> {
    tokens(raw, CharClass::Is('\n'))
}

/// The command that a line of `artisan list --raw` names: its first word,
/// unless the line or the word starts with an underscore.
pub open spec fn artisan_name(line: Seq<char>) -> Option<Seq<char>> {
    let text = trimmed(line);
    let words = tokens(text, CharClass::Whitespace);
    if text.len() == 0 || text[0] == '_' || words.len() == 0 {
        None
    } else if words[0].len() > 0 && words[0][0] == '_' {
        None
    } else {
        Some(words[0])
    }
}

/// The names of the lines of a listing, line by line.
pub open spec fn artisan_items(raw: Seq<char>) -> Seq<Option<Seq<char>>> {
    Seq::new(lines_of(raw).len(), |i: int| artisan_name(lines_of(raw)[i]))
}

/// Whether the listing names the command.
pub open spec fn artisan_lists(raw: Seq<char>, name: Seq<char>) -> bool {
    listed(artisan_items(raw), artisan_items(raw).len() as int, name)
}

fn artisan_name_of(line: &Vec<char>) -> (r: Option<Vec<char>>)
    ensures
        match r {
            Some(n) => artisan_name(line@) == Some(n@),
            None => artisan_name(line@) is None,
        },
{
    let text = trim_chars(line);
    if text.len() == 0 || text[0] == '_' {
        return None;
    }
    let words = split_tokens(&text, CharClass::Whitespace);
    if words.len() == 0 {
        return None;
    }
    assert(rows(words@)[0] == words@[0]@);
    if words[0].len() > 0 && words[0][0] == '_' {
        return None;
    }
    let first = crate::text::copy_range(&words[0], 0, words[0].len());
    assert(first@ =~= words@[0]@);
    Some(first)
}

/// The commands of `artisan list --raw`, in order and each once.
pub fn parse_artisan_commands(raw: &str) -> (out: Vec<String>)
    ensures
        strictly_sorted(views(out@)),
        forall|name: Seq<char>| #[trigger] views(out@).contains(name) <==> artisan_lists(raw@, name),
{
    let chars = chars_of(raw);
    let lines = split_tokens(&chars, CharClass::Is('\n'));
    let ghost items = artisan_items(raw@);
    let mut found: Vec<Vec<char>> = Vec::new();
    let mut i: usize = 0;
    while i < lines.len()
        invariant
            i <= lines.len(),
            rows(lines@) == lines_of(raw@),
            items == artisan_items(raw@),
            strictly_sorted(rows(found@)),
            forall|name: Seq<char>|
                #[trigger] rows(found@).contains(name) <==> (Seq::<Seq<char>>::empty().contains(name)
                    || listed(items, i as int, name)),
        decreases lines.len() - i,
    {
        assert(rows(lines@)[i as int] == lines@[i as int]@);
        let item = artisan_name_of(&lines[i]);
        note_item(&mut found, item, Ghost(Seq::empty()), Ghost(items), Ghost(i as int));
        i += 1;
    }
    strings_of(&found)
}

/// Whether a character can stand in the name of a recipe.
pub open spec fn is_recipe_char(c: char) -> bool {
    is_ascii_alphanumeric(c) || c == '-' || c == '_' || c == ':'
}

/// Whether every character can stand in the name of a recipe.
pub open spec fn all_recipe_chars(name: Seq<char>) -> bool {
    forall|i: int| 0 <= i < name.len() ==> is_recipe_char(#[trigger] name[i])
}

/// The recipe that a word of `just --summary` names: the word without the
/// commas and then the colons round it, unless that is empty, starts with an
/// underscore, is one of the words of the heading, or holds a character that
/// no recipe name has.
pub open spec fn recipe_name(word: Seq<char>) -> Option<Seq<char>> {
    let name = strip(strip(word, CharClass::Is(',')), CharClass::Is(':'));
    if name.len() == 0 || name[0] == '_' {
        None
    } else if ascii_lowercase(name) == "available"@ || ascii_lowercase(name) == "recipes"@ {
        None
    } else if !all_recipe_chars(name) {
        None
    } else {
        Some(name)
    }
}

/// Whether a line of the summary is read: it is not blank and is not the heading.
pub open spec fn recipe_line(line: Seq<char>) -> bool {
    let text = trimmed(line);
    text.len() > 0 && !starts_with(ascii_lowercase(text), "available recipes"@)
}

/// How many words of a line are read: those before the first `--`.
pub open spec fn words_read(words: Seq<Seq<char>>) -> int
    decreases words.len(),
{
    if words.len() == 0 || words[0] == "--"@ {
        0
    } else {
        1 + words_read(words.drop_first())
    }
}

/// The recipes that the words of a line name, word by word.
pub open spec fn recipe_items(line: Seq<char>) -> Seq<Option<Seq<char>>> {
    let words = tokens(trimmed(line), CharClass::Whitespace);
    Seq::new(words.len(), |j: int| recipe_name(words[j]))
}

/// Whether the line names the recipe.
pub open spec fn line_lists(line: Seq<char>, name: Seq<char>) -> bool {
    recipe_line(line) && listed(
        recipe_items(line),
        words_read(tokens(trimmed(line), CharClass::Whitespace)),
        name,
    )
}

/// Whether one of the first `upto` lines names the recipe.
pub open spec fn lines_list(lines: Seq<Seq<char>>, upto: int, name: Seq<char>) -> bool {
    exists|i: int| 0 <= i < upto && i < lines.len() && line_lists(#[trigger] lines[i], name)
}

/// Whether the summary names the recipe.
pub open spec fn just_lists(raw: Seq<char>, name: Seq<char>) -> bool {
    lines_list(lines_of(raw), lines_of(raw).len() as int, name)
}

fn is_word(text: &Vec<char>, word: &str) -> (r: bool)
    ensures
        r == (text@ == word@),
{
    let w = chars_of(word);
    same_chars(text, &w)
}

fn only_recipe_chars(name: &Vec<char>) -> (r: bool)
    ensures
        r == all_recipe_chars(name@),
{
    let mut i: usize = 0;
    while i < name.len()
        invariant
            i <= name.len(),
            forall|j: int| 0 <= j < i ==> is_recipe_char(#[trigger] name@[j]),
        decreases name.len() - i,
    {
        let c = name[i];
        if !(crate::text::ascii_alphanumeric(c) || c == '-' || c == '_' || c == ':') {
            assert(!is_recipe_char(name@[i as int]));
            return false;
        }
        i += 1;
    }
    true
}

fn recipe_name_of(word: &Vec<char>) -> (r: Option<Vec<char>>)
    ensures
        match r {
            Some(n) => recipe_name(word@) == Some(n@),
            None => recipe_name(word@) is None,
        },
{
    let bare = strip_chars(word, CharClass::Is(','));
    let name = strip_chars(&bare, CharClass::Is(':'));
    if name.len() == 0 || name[0] == '_' {
        return None;
    }
    let lower = to_ascii_lowercase(&name);
    if is_word(&lower, "available") || is_word(&lower, "recipes") {
        return None;
    }
    if !only_recipe_chars(&name) {
        return None;
    }
    Some(name)
}

proof fn lemma_words_read_bound(words: Seq<Seq<char>>)
    ensures
        0 <= words_read(words) <= words.len(),
    decreases words.len(),
{
    if words.len() > 0 && words[0] != "--"@ {
        lemma_words_read_bound(words.drop_first());
    }
}

/// Adds the recipes of one line to `found`.
fn collect_recipes(found: &mut Vec<Vec<char>>, line: &Vec<char>)
    requires
        strictly_sorted(rows(old(found)@)),
    ensures
        strictly_sorted(rows(final(found)@)),
        forall|name: Seq<char>|
            #[trigger] rows(final(found)@).contains(name) <==> (rows(old(found)@).contains(name) || line_lists(
                line@,
                name,
            )),
{
    let text = trim_chars(line);
    if text.len() == 0 {
        return;
    }
    let lower = to_ascii_lowercase(&text);
    let heading = chars_of("available recipes");
    if has_prefix(&lower, &heading) {
        return;
    }
    let words = split_tokens(&text, CharClass::Whitespace);
    let ghost ws = rows(words@);
    let ghost items = recipe_items(line@);
    let ghost start = rows(found@);
    let mut k: usize = 0;
    assert(ws.skip(0) == ws);
    assert forall|name: Seq<char>| #[trigger] rows(found@).contains(name) <==> (start.contains(name) || listed(
        items,
        0,
        name,
    )) by {}
    while k < words.len()
        invariant
            k <= words.len(),
            ws == rows(words@),
            ws == tokens(trimmed(line@), CharClass::Whitespace),
            items == recipe_items(line@),
            start == rows(old(found)@),
            recipe_line(line@),
            words_read(ws) == k + words_read(ws.skip(k as int)),
            strictly_sorted(rows(found@)),
            forall|name: Seq<char>|
                #[trigger] rows(found@).contains(name) <==> (start.contains(name) || listed(
                    items,
                    k as int,
                    name,
                )),
        decreases words.len() - k,
    {
        let ghost rest = ws.skip(k as int);
        assert(rest[0] == words@[k as int]@);
        assert(rest.drop_first() == ws.skip(k + 1));
        assert(ws[k as int] == words@[k as int]@);
        if is_word(&words[k], "--") {
            assert(words_read(ws) == k);
            return;
        }
        let item = recipe_name_of(&words[k]);
        note_item(found, item, Ghost(start), Ghost(items), Ghost(k as int));
        k += 1;
    }
    proof {
        lemma_words_read_bound(ws.skip(k as int));
        assert(words_read(ws) == k);
    }
}

proof fn lemma_lines_list_step(lines: Seq<Seq<char>>, k: int, name: Seq<char>)
    requires
        0 <= k < lines.len(),
    ensures
        lines_list(lines, k + 1, name) <==> (lines_list(lines, k, name) || line_lists(
            lines[k],
            name,
        )),
{
    if lines_list(lines, k + 1, name) {
        let i = choose|i: int|
            0 <= i < k + 1 && i < lines.len() && line_lists(#[trigger] lines[i], name);
        if i < k {
            assert(lines_list(lines, k, name));
        }
    }
    if lines_list(lines, k, name) {
        let i = choose|i: int| 0 <= i < k && i < lines.len() && line_lists(#[trigger] lines[i], name);
        assert(0 <= i < k + 1 && line_lists(lines[i], name));
    }
    if line_lists(lines[k], name) {
        assert(0 <= k < k + 1);
    }
}

/// The recipes of `just --summary`, in order and each once.
pub fn parse_just_recipes(raw: &str) -> (out: Vec<String>)
    ensures
        strictly_sorted(views(out@)),
        forall|name: Seq<char>| #[trigger] views(out@).contains(name) <==> just_lists(raw@, name),
{
    let chars = chars_of(raw);
    let lines = split_tokens(&chars, CharClass::Is('\n'));
    let mut found: Vec<Vec<char>> = Vec::new();
    let mut i: usize = 0;
    while i < lines.len()
        invariant
            i <= lines.len(),
            rows(lines@) == lines_of(raw@),
            strictly_sorted(rows(found@)),
            forall|name: Seq<char>|
                #[trigger] rows(found@).contains(name) <==> lines_list(lines_of(raw@), i as int, name),
        decreases lines.len() - i,
    {
        assert(rows(lines@)[i as int] == lines@[i as int]@);
        collect_recipes(&mut found, &lines[i]);
        proof {
            assert forall|name: Seq<char>| #[trigger] rows(found@).contains(name) <==> lines_list(
                lines_of(raw@),
                i + 1,
                name,
            ) by {
                lemma_lines_list_step(lines_of(raw@), i as int, name);
            }
        }
        i += 1;
    }
    strings_of(&found)
}


// ---------------------------------------------------------------------------
// JSON
// ---------------------------------------------------------------------------

/// A JSON value as plain data. A number is kept as it is written.
#[derive(Debug)]
pub enum Json {
    Null,
    Bool(bool),
    Number(String),
    Text(String),
    List(Vec<Json>),
    Object(Vec<(String, Json)>),
}

/// A JSON value as plain values.
pub enum JsonView {
    Null,
    Bool(bool),
    Number(Seq<char>),
    Text(Seq<char>),
    List(Seq<JsonView>),
    Object(Seq<(Seq<char>, JsonView)>),
}

impl Json {
    pub open spec fn view(self) -> JsonView
        decreases self,
    {
        match self {
            Json::Null => JsonView::Null,
            Json::Bool(b) => JsonView::Bool(b),
            Json::Number(n) => JsonView::Number(n@),
            Json::Text(s) => JsonView::Text(s@),
            Json::List(items) => JsonView::List(
                Seq::new(
                    items@.len(),
                    |i: int|
                        if 0 <= i < items@.len() {
                            items@[i].view()
                        } else {
                            JsonView::Null
                        },
                ),
            ),
            Json::Object(entries) => JsonView::Object(
                Seq::new(
                    entries@.len(),
                    |i: int|
                        if 0 <= i < entries@.len() {
                            (entries@[i].0@, entries@[i].1.view())
                        } else {
                            (Seq::empty(), JsonView::Null)
                        },
                ),
            ),
        }
    }
}

/// The view of a value that may be missing.
pub open spec fn parsed_view(json: Option<Json>) -> Option<JsonView> {
    match json {
        Some(j) => Some(j@),
        None => None,
    }
}

/// The value that `serde_json::from_str` reads from a text; `None` where it
/// refuses the text. The members of an object stand in the order in which
/// serde_json's map walks them.
pub uninterp spec fn json_value(raw: Seq<char>) -> Option<JsonView>;

/// The type of a parsed JSON value of serde_json.
#[verifier::external_type_specification]
#[verifier::external_body]
pub struct ExJsonValue(serde_json::Value);

/// Turns a `serde_json::Value` into a `Json`, variant by variant; the
/// members of an object come in the order in which serde_json's map walks
/// them. Nothing is claimed of the result.
#[verifier::external_body]
fn json_of(value: &serde_json::Value) -> (json: Json) {
    match value {
        serde_json::Value::Null => Json::Null,
        serde_json::Value::Bool(b) => Json::Bool(*b),
        serde_json::Value::Number(n) => Json::Number(n.to_string()),
        serde_json::Value::String(s) => Json::Text(s.clone()),
        serde_json::Value::Array(items) => Json::List(items.iter().map(json_of).collect()),
        serde_json::Value::Object(map) => Json::Object(
            map.iter().map(|(k, v)| (k.clone(), json_of(v))).collect(),
        ),
    }
}

/// `serde_json::from_str` for a `serde_json::Value`: the value that the text
/// writes, or `None` where the text is no JSON. What it reads depends on the
/// text alone; it is named `json_value`.
#[verifier::external_body]
fn parse_json(raw: &str) -> (json: Option<Json>)
    ensures
        parsed_view(json) == json_value(raw@),
{
    match serde_json::from_str::<serde_json::Value>(raw) {
        Ok(value) => Some(json_of(&value)),
        Err(_) => None,
    }
}

/// The member of an object with this name: the first one, where several
/// have it; `None` for a value that is no object.
pub open spec fn member_in(entries: Seq<(Seq<char>, JsonView)>, key: Seq<char>) -> Option<JsonView>
    decreases entries.len(),
{
    if entries.len() == 0 {
        None
    } else if entries[0].0 == key {
        Some(entries[0].1)
    } else {
        member_in(entries.drop_first(), key)
    }
}

/// The member of a JSON object with this name.
pub open spec fn member(json: JsonView, key: Seq<char>) -> Option<JsonView> {
    match json {
        JsonView::Object(entries) => member_in(entries, key),
        _ => None,
    }
}

/// Looks a member of a JSON object up.
pub fn json_member<'a>(json: &'a Json, key: &str) -> (r: Option<&'a Json>)
    ensures
        match r {
            Some(found) => member(json@, key@) == Some(found@),
            None => member(json@, key@) is None,
        },
{
    match json {
        Json::Object(entries) => {
            let wanted = chars_of(key);
            let ghost all = json@->Object_0;
            let mut i: usize = 0;
            assert(all.skip(0) == all);
            while i < entries.len()
                invariant
                    i <= entries.len(),
                    wanted@ == key@,
                    json@ == JsonView::Object(all),
                    all.len() == entries@.len(),
                    forall|k: int|
                        0 <= k < all.len() ==> #[trigger] all[k] == (
                            entries@[k].0@,
                            entries@[k].1@,
                        ),
                    member_in(all, key@) == member_in(all.skip(i as int), key@),
                decreases entries.len() - i,
            {
                let ghost rest = all.skip(i as int);
                assert(rest[0] == all[i as int]);
                assert(rest.drop_first() == all.skip(i + 1));
                let k = chars_of(entries[i].0.as_str());
                if same_chars(&k, &wanted) {
                    return Some(&entries[i].1);
                }
                i += 1;
            }
            None
        },
        _ => None,
    }
}

/// The text of a member that is a string; empty text for anything else.
pub open spec fn member_text(json: JsonView, key: Seq<char>) -> Seq<char> {
    match member(json, key) {
        Some(JsonView::Text(s)) => s,
        _ => Seq::empty(),
    }
}

fn member_text_of(json: &Json, key: &str) -> (out: Vec<char>)
    ensures
        out@ == member_text(json@, key@),
{
    match json_member(json, key) {
        Some(Json::Text(s)) => chars_of(s.as_str()),
        _ => Vec::new(),
    }
}

/// The name of a composer script: the trimmed key, unless it is empty or
/// starts with an underscore.
pub open spec fn script_name(key: Seq<char>) -> Option<Seq<char>> {
    let name = trimmed(key);
    if name.len() == 0 || name[0] == '_' {
        None
    } else {
        Some(name)
    }
}

/// The script names of a composer file, member by member.
pub open spec fn script_items(json: JsonView) -> Seq<Option<Seq<char>>> {
    match member(json, "scripts"@) {
        Some(JsonView::Object(entries)) => Seq::new(entries.len(), |i: int| script_name(entries[i].0)),
        _ => Seq::empty(),
    }
}

/// Whether the composer file has a script of this name.
pub open spec fn has_script(json: JsonView, name: Seq<char>) -> bool {
    listed(script_items(json), script_items(json).len() as int, name)
}

/// The scripts of a composer file, in order and each once.
pub fn composer_scripts_from(json: &Json) -> (out: Vec<String>)
    ensures
        strictly_sorted(views(out@)),
        forall|name: Seq<char>| #[trigger] views(out@).contains(name) <==> has_script(json@, name),
{
    let mut found: Vec<Vec<char>> = Vec::new();
    match json_member(json, "scripts") {
        Some(Json::Object(entries)) => {
            let ghost items = script_items(json@);
            let mut i: usize = 0;
            while i < entries.len()
                invariant
                    i <= entries.len(),
                    items == script_items(json@),
                    items.len() == entries@.len(),
                    forall|k: int|
                        0 <= k < items.len() ==> #[trigger] items[k] == script_name(entries@[k].0@),
                    strictly_sorted(rows(found@)),
                    forall|name: Seq<char>| #[trigger]
                        rows(found@).contains(name) <==> (Seq::<Seq<char>>::empty().contains(name)
                            || listed(items, i as int, name)),
                decreases entries.len() - i,
            {
                let key = chars_of(entries[i].0.as_str());
                let name = trim_chars(&key);
                let item = if name.len() == 0 || name[0] == '_' {
                    None
                } else {
                    Some(name)
                };
                note_item(&mut found, item, Ghost(Seq::empty()), Ghost(items), Ghost(i as int));
                i += 1;
            }
        },
        _ => {},
    }
    strings_of(&found)
}

/// Whether the text is a composer file with a script of this name.
pub open spec fn text_has_script(raw: Seq<char>, name: Seq<char>) -> bool {
    match json_value(raw) {
        Some(json) => has_script(json, name),
        None => false,
    }
}

/// That a script is listed means that its name is a trimmed key that is not
/// empty and does not start with an underscore.
pub proof fn lemma_script_names(json: JsonView, name: Seq<char>)
    requires
        has_script(json, name),
    ensures
        name.len() > 0,
        name[0] != '_',
{
    let items = script_items(json);
    let j = choose|j: int| 0 <= j < items.len() && j < items.len() && #[trigger] items[j] == Some(name);
    match member(json, "scripts"@) {
        Some(JsonView::Object(entries)) => {
            assert(items[j] == script_name(entries[j].0));
        },
        _ => {},
    }
}

/// The scripts of a composer file given as text, in order and each once:
/// none where the text is no JSON. No name is empty or starts with an
/// underscore.
pub fn parse_composer_scripts_json(raw: &str) -> (out: Vec<String>)
    ensures
        strictly_sorted(views(out@)),
        forall|name: Seq<char>| #[trigger] views(out@).contains(name) <==> text_has_script(raw@, name),
        forall|i: int|
            0 <= i < out@.len() ==> (#[trigger] out@[i])@.len() > 0 && out@[i]@[0] != '_',
{
    if let Some(json) = parse_json(raw) {
        let out = composer_scripts_from(&json);
        proof {
            assert forall|i: int| 0 <= i < out@.len() implies (#[trigger] out@[i])@.len() > 0
                && out@[i]@[0] != '_' by {
                let name = out@[i]@;
                assert(views(out@)[i] == name);
                assert(views(out@).contains(name));
                lemma_script_names(json@, name);
            }
        }
        out
    } else {
        let out: Vec<String> = Vec::new();
        assert forall|name: Seq<char>| #[trigger]
            views(out@).contains(name) <==> text_has_script(raw@, name) by {}
        out
    }
}

/// The descriptions of a list of commands: each command with a name that
/// is a string gives its description, a later one replacing an earlier one
/// of the same name.
pub open spec fn list_described(items: Seq<JsonView>) -> Seq<(Seq<char>, Seq<char>)>
    decreases items.len(),
{
    if items.len() == 0 {
        Seq::empty()
    } else {
        let before = list_described(items.drop_last());
        match member(items.last(), "name"@) {
            Some(JsonView::Text(name)) => assigned(
                before,
                name,
                member_text(items.last(), "description"@),
            ),
            _ => before,
        }
    }
}

/// The descriptions of commands that are the members of an object.
pub open spec fn object_described(entries: Seq<(Seq<char>, JsonView)>) -> Seq<(Seq<char>, Seq<char>)>
    decreases entries.len(),
{
    if entries.len() == 0 {
        Seq::empty()
    } else {
        assigned(
            object_described(entries.drop_last()),
            entries.last().0,
            member_text(entries.last().1, "description"@),
        )
    }
}

/// The descriptions that `artisan list --format=json` gives: under
/// `commands`, a list of commands or an object of them.
pub open spec fn described(json: JsonView) -> Seq<(Seq<char>, Seq<char>)> {
    match member(json, "commands"@) {
        Some(JsonView::List(items)) => list_described(items),
        Some(JsonView::Object(entries)) => object_described(entries),
        _ => Seq::empty(),
    }
}

/// Reads the descriptions of the artisan commands from a JSON value.
pub fn artisan_descriptions_from(json: &Json) -> (out: Vec<(String, String)>)
    ensures
        pair_views(out@) == described(json@),
{
    let mut out: Vec<(String, String)> = Vec::new();
    assert(pair_views(out@) =~= Seq::empty());
    match json_member(json, "commands") {
        Some(Json::List(items)) => {
            let ghost all = member(json@, "commands"@)->Some_0->List_0;
            let mut i: usize = 0;
            assert(all.take(0) =~= Seq::empty());
            while i < items.len()
                invariant
                    i <= items.len(),
                    all.len() == items@.len(),
                    forall|k: int| 0 <= k < all.len() ==> #[trigger] all[k] == items@[k]@,
                    pair_views(out@) == list_described(all.take(i as int)),
                decreases items.len() - i,
            {
                proof {
                    let next = all.take(i + 1);
                    assert(next.drop_last() == all.take(i as int));
                    assert(next.last() == all[i as int]);
                }
                match json_member(&items[i], "name") {
                    Some(Json::Text(name)) => {
                        let description = member_text_of(&items[i], "description");
                        assign(&mut out, name.clone(), string_of(&description));
                    },
                    _ => {},
                }
                i += 1;
            }
            assert(all.take(all.len() as int) == all);
        },
        Some(Json::Object(entries)) => {
            let ghost all = member(json@, "commands"@)->Some_0->Object_0;
            let mut i: usize = 0;
            assert(all.take(0) =~= Seq::empty());
            while i < entries.len()
                invariant
                    i <= entries.len(),
                    all.len() == entries@.len(),
                    forall|k: int|
                        0 <= k < all.len() ==> #[trigger] all[k] == (
                            entries@[k].0@,
                            entries@[k].1@,
                        ),
                    pair_views(out@) == object_described(all.take(i as int)),
                decreases entries.len() - i,
            {
                proof {
                    let next = all.take(i + 1);
                    assert(next.drop_last() == all.take(i as int));
                    assert(next.last() == all[i as int]);
                }
                let description = member_text_of(&entries[i].1, "description");
                assign(&mut out, entries[i].0.clone(), string_of(&description));
                i += 1;
            }
            assert(all.take(all.len() as int) == all);
        },
        _ => {},
    }
    out
}

/// The descriptions that a text gives: those of the JSON value that it
/// writes, none where it is no JSON.
pub open spec fn text_described(raw: Seq<char>) -> Seq<(Seq<char>, Seq<char>)> {
    match json_value(raw) {
        Some(json) => described(json),
        None => Seq::empty(),
    }
}

/// The descriptions of `artisan list --format=json` given as text: none
/// where the text is no JSON.
pub fn parse_artisan_descriptions_json(raw: &str) -> (out: Vec<(String, String)>)
    ensures
        pair_views(out@) == text_described(raw@),
{
    if let Some(json) = parse_json(raw) {
        artisan_descriptions_from(&json)
    } else {
        let out: Vec<(String, String)> = Vec::new();
        assert(pair_views(out@) =~= Seq::empty());
        out
    }
}

// ---------------------------------------------------------------------------
// Entries
// ---------------------------------------------------------------------------

/// A discovered command as plain values; it has no parameters.
pub struct EntryView {
    pub name: Seq<char>,
    pub description: Option<Seq<char>>,
    pub template: Seq<char>,
    pub provider: Seq<char>,
    pub working_dir: Option<Seq<char>>,
    pub params: nat,
}

/// A catalog entry as plain values.
pub open spec fn entry_view(entry: CommandEntry) -> EntryView {
    EntryView {
        name: entry.name@,
        description: text_of(entry.description),
        template: entry.template@,
        provider: entry.source.provider(),
        working_dir: text_of(entry.working_dir),
        params: entry.params@.len(),
    }
}

/// Catalog entries as plain values.
pub open spec fn entry_views(entries: Seq<CommandEntry>) -> Seq<EntryView> {
    Seq::new(entries.len(), |i: int| entry_view(entries[i]))
}

fn joined(head: &str, tail: &str) -> (out: String)
    ensures
        out@ == head@ + tail@,
{
    let mut out = head.to_owned();
    out.append(tail);
    out
}

/// The description of an artisan command: the one that was read, unless it
/// is blank.
pub open spec fn artisan_description(descriptions: Seq<(String, String)>, name: Seq<char>) -> Seq<char> {
    match alias_target(descriptions, name) {
        Some(d) => if trimmed(d).len() > 0 {
            d
        } else {
            "Laravel artisan command"@
        },
        None => "Laravel artisan command"@,
    }
}

/// The entry of an artisan command.
pub open spec fn artisan_view(name: Seq<char>, descriptions: Seq<(String, String)>, root: Seq<char>) -> EntryView {
    EntryView {
        name: "artisan "@ + name,
        description: Some(artisan_description(descriptions, name)),
        template: "php artisan "@ + name + " --ansi"@,
        provider: "artisan"@,
        working_dir: Some(root),
        params: 0,
    }
}

/// The entries of the artisan commands.
pub open spec fn artisan_views(
    names: Seq<String>,
    descriptions: Seq<(String, String)>,
    root: Seq<char>,
) -> Seq<EntryView> {
    Seq::new(names.len(), |i: int| artisan_view(names[i]@, descriptions, root))
}

/// The catalog entries of the artisan commands.
pub fn artisan_entries(names: &Vec<String>, descriptions: &Vec<(String, String)>, root: &str) -> (out: Vec<
    CommandEntry,
>)
    ensures
        entry_views(out@) == artisan_views(names@, descriptions@, root@),
{
    let mut out: Vec<CommandEntry> = Vec::new();
    let mut i: usize = 0;
    while i < names.len()
        invariant
            i <= names.len(),
            out@.len() == i,
            forall|j: int|
                0 <= j < i ==> entry_view(#[trigger] out@[j]) == artisan_view(
                    names@[j]@,
                    descriptions@,
                    root@,
                ),
        decreases names.len() - i,
    {
        let name = names[i].as_str();
        let key = chars_of(name);
        let description = match alias_target_of(descriptions, &key) {
            Some(d) => {
                let inner = trim_chars(&d);
                if inner.len() > 0 {
                    string_of(&d)
                } else {
                    "Laravel artisan command".to_owned()
                }
            },
            None => "Laravel artisan command".to_owned(),
        };
        let mut template = "php artisan ".to_owned();
        template.append(name);
        template.append(" --ansi");
        out.push(
            CommandEntry {
                name: joined("artisan ", name),
                description: Some(description),
                template,
                params: Vec::new(),
                source: CommandSource::Provider("artisan"),
                working_dir: Some(root.to_owned()),
            },
        );
        i += 1;
    }
    assert(entry_views(out@) =~= artisan_views(names@, descriptions@, root@));
    out
}

/// The entry of a recipe.
pub open spec fn just_view(
    recipe: Seq<char>,
    path: Seq<char>,
    options: Seq<Seq<char>>,
    cwd: Seq<char>,
) -> EntryView {
    EntryView {
        name: "just "@ + recipe,
        description: Some("just recipe"@),
        template: just_command(path, options, recipe),
        provider: "justfile"@,
        working_dir: Some(cwd),
        params: 0,
    }
}

/// The entries of the recipes.
pub open spec fn just_views(
    recipes: Seq<String>,
    path: Seq<char>,
    options: Seq<Seq<char>>,
    cwd: Seq<char>,
) -> Seq<EntryView> {
    Seq::new(recipes.len(), |i: int| just_view(recipes[i]@, path, options, cwd))
}

/// The catalog entries of the recipes of a justfile.
pub fn just_entries(recipes: &Vec<String>, justfile_path: &str, option_tokens: &Vec<String>, cwd: &str) -> (out:
    Vec<CommandEntry>)
    ensures
        entry_views(out@) == just_views(recipes@, justfile_path@, views(option_tokens@), cwd@),
{
    let mut out: Vec<CommandEntry> = Vec::new();
    let mut i: usize = 0;
    while i < recipes.len()
        invariant
            i <= recipes.len(),
            out@.len() == i,
            forall|j: int|
                0 <= j < i ==> entry_view(#[trigger] out@[j]) == just_view(
                    recipes@[j]@,
                    justfile_path@,
                    views(option_tokens@),
                    cwd@,
                ),
        decreases recipes.len() - i,
    {
        let recipe = recipes[i].as_str();
        out.push(
            CommandEntry {
                name: joined("just ", recipe),
                description: Some("just recipe".to_owned()),
                template: build_just_command_template(justfile_path, option_tokens, recipe),
                params: Vec::new(),
                source: CommandSource::Provider("justfile"),
                working_dir: Some(cwd.to_owned()),
            },
        );
        i += 1;
    }
    assert(entry_views(out@) =~= just_views(recipes@, justfile_path@, views(option_tokens@), cwd@));
    out
}

/// How many composer commands every project has.
pub const BASIC_COMPOSER_COMMANDS: usize = 7;

/// The name and the description of a composer command that every project has.
pub open spec fn basic_composer(index: int) -> (Seq<char>, Seq<char>) {
    if index == 0 {
        ("install"@, "Install project dependencies"@)
    } else if index == 1 {
        ("update"@, "Update dependencies"@)
    } else if index == 2 {
        ("dump-autoload"@, "Regenerate autoloader files"@)
    } else if index == 3 {
        ("validate"@, "Validate composer.json and composer.lock"@)
    } else if index == 4 {
        ("show"@, "List installed packages"@)
    } else if index == 5 {
        ("outdated"@, "Show outdated dependencies"@)
    } else {
        ("audit"@, "Run security audit on dependencies"@)
    }
}

/// The composer commands that every project has.
pub fn basic_composer_commands() -> (out: Vec<(&'static str, &'static str)>)
    ensures
        out@.len() == BASIC_COMPOSER_COMMANDS,
        forall|i: int|
            0 <= i < BASIC_COMPOSER_COMMANDS ==> ((#[trigger] out@[i]).0@, out@[i].1@)
                == basic_composer(i),
{
    let mut out: Vec<(&'static str, &'static str)> = Vec::new();
    out.push(("install", "Install project dependencies"));
    out.push(("update", "Update dependencies"));
    out.push(("dump-autoload", "Regenerate autoloader files"));
    out.push(("validate", "Validate composer.json and composer.lock"));
    out.push(("show", "List installed packages"));
    out.push(("outdated", "Show outdated dependencies"));
    out.push(("audit", "Run security audit on dependencies"));
    out
}

/// The entry with this index among those of a composer project.
pub open spec fn composer_view(index: int, scripts: Seq<String>, root: Seq<char>) -> EntryView {
    if index < BASIC_COMPOSER_COMMANDS {
        EntryView {
            name: "composer "@ + basic_composer(index).0,
            description: Some(basic_composer(index).1),
            template: "composer "@ + basic_composer(index).0,
            provider: "composer"@,
            working_dir: Some(root),
            params: 0,
        }
    } else {
        EntryView {
            name: "composer script:"@ + scripts[index - BASIC_COMPOSER_COMMANDS]@,
            description: Some("composer script"@),
            template: "composer run-script "@ + scripts[index - BASIC_COMPOSER_COMMANDS]@,
            provider: "composer"@,
            working_dir: Some(root),
            params: 0,
        }
    }
}

/// The entries of a composer project: the commands that every project has,
/// then one for each script.
pub open spec fn composer_views(scripts: Seq<String>, root: Seq<char>) -> Seq<EntryView> {
    Seq::new(
        BASIC_COMPOSER_COMMANDS as nat + scripts.len(),
        |i: int| composer_view(i, scripts, root),
    )
}

/// The catalog entries of a composer project.
pub fn composer_entries(scripts: &Vec<String>, root: &str) -> (out: Vec<CommandEntry>)
    ensures
        entry_views(out@) == composer_views(scripts@, root@),
{
    let basics = basic_composer_commands();
    let mut out: Vec<CommandEntry> = Vec::new();
    let mut i: usize = 0;
    while i < basics.len()
        invariant
            i <= basics.len(),
            basics@.len() == BASIC_COMPOSER_COMMANDS,
            forall|k: int|
                0 <= k < BASIC_COMPOSER_COMMANDS ==> ((#[trigger] basics@[k]).0@, basics@[k].1@)
                    == basic_composer(k),
            out@.len() == i,
            forall|j: int|
                0 <= j < i ==> entry_view(#[trigger] out@[j]) == composer_view(j, scripts@, root@),
        decreases basics.len() - i,
    {
        let name = basics[i].0;
        let description = basics[i].1;
        assert((basics@[i as int].0@, basics@[i as int].1@) == basic_composer(i as int));
        out.push(
            CommandEntry {
                name: joined("composer ", name),
                description: Some(description.to_owned()),
                template: joined("composer ", name),
                params: Vec::new(),
                source: CommandSource::Provider("composer"),
                working_dir: Some(root.to_owned()),
            },
        );
        i += 1;
    }
    let mut k: usize = 0;
    while k < scripts.len()
        invariant
            k <= scripts.len(),
            out@.len() == BASIC_COMPOSER_COMMANDS + k,
            forall|j: int|
                0 <= j < out@.len() ==> entry_view(#[trigger] out@[j]) == composer_view(
                    j,
                    scripts@,
                    root@,
                ),
        decreases scripts.len() - k,
    {
        let script = scripts[k].as_str();
        out.push(
            CommandEntry {
                name: joined("composer script:", script),
                description: Some("composer script".to_owned()),
                template: joined("composer run-script ", script),
                params: Vec::new(),
                source: CommandSource::Provider("composer"),
                working_dir: Some(root.to_owned()),
            },
        );
        k += 1;
    }
    assert(entry_views(out@) =~= composer_views(scripts@, root@));
    out
}

// ---------------------------------------------------------------------------
// All providers
// ---------------------------------------------------------------------------

/// What was found of a Laravel project: its root and what artisan listed.
pub struct ArtisanFinding {
    pub root: String,
    pub names: Vec<String>,
    pub descriptions: Vec<(String, String)>,
}

/// What was found of a composer project: its root and its scripts.
pub struct ComposerFinding {
    pub root: String,
    pub scripts: Vec<String>,
}

/// What was found of a justfile: its path, the directory that the
/// launcher was started in, and the recipes.
pub struct JustFinding {
    pub path: String,
    pub cwd: String,
    pub recipes: Vec<String>,
}

pub struct ProviderFindings {
    pub artisan: Option<ArtisanFinding>,
    pub composer: Option<ComposerFinding>,
    pub justfile: Option<JustFinding>,
}

/// The entries of the providers that are switched on and found something:
/// artisan, then composer, then justfile.
pub open spec fn provider_views(config: ProvidersConfig, found: ProviderFindings) -> Seq<EntryView> {
    let artisan = match found.artisan {
        Some(a) if config.artisan.enabled => artisan_views(a.names@, a.descriptions@, a.root@),
        _ => Seq::empty(),
    };
    let composer = match found.composer {
        Some(c) if config.composer.enabled => composer_views(c.scripts@, c.root@),
        _ => Seq::empty(),
    };
    let justfile = match found.justfile {
        Some(j) if config.justfile.enabled => just_views(
            j.recipes@,
            j.path@,
            option_tokens(views(config.justfile.options@)),
            j.cwd@,
        ),
        _ => Seq::empty(),
    };
    artisan + composer + justfile
}

/// Builds the catalog entries of the providers from what was found for them.
pub fn load_provider_commands(config: &ProvidersConfig, found: &ProviderFindings) -> (out: Vec<
    CommandEntry,
>)
    ensures
        entry_views(out@) == provider_views(*config, *found),
{
    let mut out: Vec<CommandEntry> = Vec::new();
    assert(entry_views(out@) =~= Seq::empty());
    if config.artisan.enabled {
        match &found.artisan {
            Some(a) => {
                let mut entries = artisan_entries(&a.names, &a.descriptions, a.root.as_str());
                out.append(&mut entries);
            },
            None => {},
        }
    }
    let ghost first = entry_views(out@);
    if config.composer.enabled {
        match &found.composer {
            Some(c) => {
                let mut entries = composer_entries(&c.scripts, c.root.as_str());
                let ghost added = entry_views(entries@);
                out.append(&mut entries);
                assert(entry_views(out@) =~= first + added);
            },
            None => {},
        }
    }
    let ghost second = entry_views(out@);
    if config.justfile.enabled {
        match &found.justfile {
            Some(j) => {
                let tokens = tokenize_provider_options(&config.justfile.options);
                let mut entries = just_entries(&j.recipes, j.path.as_str(), &tokens, j.cwd.as_str());
                let ghost added = entry_views(entries@);
                out.append(&mut entries);
                assert(entry_views(out@) =~= second + added);
            },
            None => {},
        }
    }
    assert(entry_views(out@) =~= provider_views(*config, *found));
    out
}

/// Whether a path stands for the home directory or for a path under it.
pub open spec fn home_shorthand(path: Seq<char>) -> bool {
    path == "~"@ || starts_with(path, "~/"@)
}

/// A path that starts with `~` or `~/` with the home directory in its
/// place; other paths as they are. `None` where the home directory is needed
/// and unknown.
pub fn expand_home_shorthand(raw_path: &str, home: &Option<String>) -> (r: Option<String>)
    ensures
        !home_shorthand(raw_path@) ==> text_of(r) == Some(raw_path@),
        home_shorthand(raw_path@) && *home is None ==> r is None,
        raw_path@ == "~"@ && *home is Some ==> text_of(r) == text_of(*home),
        home_shorthand(raw_path@) && *home is Some ==> r is Some,
{
    let chars = chars_of(raw_path);
    let tilde = chars_of("~");
    let prefix = chars_of("~/");
    let whole = same_chars(&chars, &tilde);
    if !(whole || has_prefix(&chars, &prefix)) {
        return Some(raw_path.to_owned());
    }
    let base = match home {
        Some(h) => h,
        None => {
            return None;
        },
    };
    if whole {
        return Some(base.clone());
    }
    proof {
        reveal_strlit("~/");
    }
    let rest = crate::text::copy_range(&chars, 2, chars.len());
    let rest_text = string_of(&rest);
    Some(path_join(base.as_str(), rest_text.as_str()))
}

} // verus!
