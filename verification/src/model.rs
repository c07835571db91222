//! The catalog's data: commands, their parameters and where they come from.

use crate::text::{
    append_chars, chars_of, less_chars, lex_lt, replace_chars, replaced, same_chars, string_of,
    unicode_lowercase,
};
use vstd::prelude::*;
use vstd::string::StringExecFns;

verus! {

/// Where a command was declared.
#[derive(Debug, Clone)]
pub enum CommandSource {
    Config,
    Provider(&'static str),
}

impl CommandSource {
    /// The name of the provider: `config` for hand-written commands.
    pub open spec fn provider(self) -> Seq<char> {
        match self {
            CommandSource::Config => "config"@,
            CommandSource::Provider(name) => name@,
        }
    }
}

#[derive(Debug, Clone)]
pub enum ParamType {
    Value,
    Flag,
}

#[derive(Debug, Clone)]
pub struct ParamSpec {
    pub name: String,
    pub kind: ParamType,
    pub prompt: String,
    pub placeholder: Option<String>,
    pub default_value: Option<String>,
    pub value_value: Option<String>,
    pub default_flag: Option<bool>,
    pub value_flag: Option<bool>,
    pub required: bool,
    pub prompt_in_tui: bool,
}

impl ParamSpec {
    /// Whether the user has to be asked for this parameter.
    pub open spec fn needs_input(self) -> bool {
        match self.kind {
            ParamType::Value => self.value_value is None && (self.prompt_in_tui || self.required
                || self.default_value is None),
            ParamType::Flag => self.value_flag is None,
        }
    }

    /// The token a flag renders as when it is switched on: the name itself
    /// when it already starts with a dash, else the name behind two dashes.
    pub open spec fn token(self) -> Seq<char> {
        if self.name@.len() > 0 && self.name@[0] == '-' {
            self.name@
        } else {
            seq!['-', '-'] + self.name@
        }
    }

    /// Whether the user has to be asked for this parameter.
    pub fn requires_input(&self) -> (r: bool)
        ensures
            r == self.needs_input(),
    {
        match self.kind {
            ParamType::Value => self.value_value.is_none() && (self.prompt_in_tui || self.required
                || self.default_value.is_none()),
            ParamType::Flag => self.value_flag.is_none(),
        }
    }

    /// The token that the flag renders as when it is switched on.
    pub fn flag_token(&self) -> (r: String)
        ensures
            r@ == self.token(),
    {
        let name = self.name.as_str();
        if name.unicode_len() > 0 && name.get_char(0) == '-' {
            self.name.clone()
        } else {
            proof {
                reveal_strlit("--");
                assert("--"@ =~= seq!['-', '-']);
            }
            let mut out = "--".to_owned();
            out.append(name);
            out
        }
    }
}

#[derive(Debug, Clone)]
pub struct CommandEntry {
    pub name: String,
    pub description: Option<String>,
    pub template: String,
    pub params: Vec<ParamSpec>,
    pub source: CommandSource,
    pub working_dir: Option<String>,
}


// ---------------------------------------------------------------------------
// Collected values and templates
// ---------------------------------------------------------------------------

/// Names and texts as plain values.
pub open spec fn pair_views(pairs: Seq<(String, String)>) -> Seq<(Seq<char>, Seq<char>)> {
    Seq::new(pairs.len(), |i: int| (pairs[i].0@, pairs[i].1@))
}

/// The list with `value` stored under `key`: in the place of the first entry
/// with this key, at the end where there is none.
pub open spec fn assigned<V>(values: Seq<(Seq<char>, V)>, key: Seq<char>, value: V) -> Seq<
    (Seq<char>, V),
>
    decreases values.len(),
{
    if values.len() == 0 {
        seq![(key, value)]
    } else if values[0].0 == key {
        seq![(key, value)] + values.drop_first()
    } else {
        seq![values[0]] + assigned(values.drop_first(), key, value)
    }
}

/// Storing under a key that is there replaces the first entry with it.
pub proof fn lemma_assigned_found<V>(values: Seq<(Seq<char>, V)>, key: Seq<char>, value: V, at: int)
    requires
        0 <= at < values.len(),
        values[at].0 == key,
        forall|j: int| 0 <= j < at ==> (#[trigger] values[j]).0 != key,
    ensures
        assigned(values, key, value) == values.update(at, (key, value)),
    decreases at,
{
    if at == 0 {
        assert(seq![(key, value)] + values.drop_first() =~= values.update(0, (key, value)));
    } else {
        let rest = values.drop_first();
        assert(rest[at - 1] == values[at]);
        assert forall|j: int| 0 <= j < at - 1 implies (#[trigger] rest[j]).0 != key by {
            assert(rest[j] == values[j + 1]);
        }
        lemma_assigned_found(rest, key, value, at - 1);
        assert(seq![values[0]] + rest.update(at - 1, (key, value)) =~= values.update(
            at,
            (key, value),
        ));
    }
}

/// Storing under a key that is not there adds an entry at the end.
pub proof fn lemma_assigned_missing<V>(values: Seq<(Seq<char>, V)>, key: Seq<char>, value: V)
    requires
        forall|j: int| 0 <= j < values.len() ==> (#[trigger] values[j]).0 != key,
    ensures
        assigned(values, key, value) == values.push((key, value)),
    decreases values.len(),
{
    if values.len() == 0 {
        assert(seq![(key, value)] =~= values.push((key, value)));
    } else {
        let rest = values.drop_first();
        assert forall|j: int| 0 <= j < rest.len() implies (#[trigger] rest[j]).0 != key by {
            assert(rest[j] == values[j + 1]);
        }
        lemma_assigned_missing(rest, key, value);
        assert(seq![values[0]] + rest.push((key, value)) =~= values.push((key, value)));
    }
}

/// Stores `value` under `key`.
pub fn assign(values: &mut Vec<(String, String)>, key: String, value: String)
    ensures
        pair_views(final(values)@) == assigned(pair_views(old(values)@), key@, value@),
{
    let wanted = chars_of(key.as_str());
    let ghost before = pair_views(values@);
    let mut i: usize = 0;
    while i < values.len()
        invariant
            i <= values.len(),
            values@ == old(values)@,
            before == pair_views(values@),
            wanted@ == key@,
            forall|j: int| 0 <= j < i ==> (#[trigger] pair_views(values@)[j]).0 != key@,
        decreases values.len() - i,
    {
        let k = chars_of(values[i].0.as_str());
        assert(pair_views(values@)[i as int].0 == values@[i as int].0@);
        if same_chars(&k, &wanted) {
            proof {
                lemma_assigned_found(before, key@, value@, i as int);
            }
            values.set(i, (key, value));
            assert(pair_views(values@) =~= before.update(i as int, (key@, value@)));
            return;
        }
        i += 1;
    }
    proof {
        lemma_assigned_missing(before, key@, value@);
    }
    values.push((key, value));
    assert(pair_views(values@) =~= before.push((key@, value@)));
}

/// What stands in a template for the parameter `key`.
pub open spec fn placeholder(key: Seq<char>) -> Seq<char> {
    seq!['{', '{'] + key + seq!['}', '}']
}

/// The template with the values filled in: taken in the order of the list,
/// each value replaces every occurrence of its placeholder in what the
/// values before it have made of the template.
pub open spec fn rendered(template: Seq<char>, params: Seq<(Seq<char>, Seq<char>)>) -> Seq<char>
    decreases params.len(),
{
    if params.len() == 0 {
        template
    } else {
        replaced(rendered(template, params.drop_last()), placeholder(params.last().0), params.last().1)
    }
}

/// Fills the values into a template.
pub fn render_chars(template: &Vec<char>, params: &Vec<(String, String)>) -> (out: Vec<char>)
    ensures
        out@ == rendered(template@, pair_views(params@)),
{
    let mut out: Vec<char> = crate::text::copy_range(template, 0, template.len());
    assert(out@ =~= template@);
    let mut i: usize = 0;
    assert(pair_views(params@).take(0) =~= Seq::empty());
    while i < params.len()
        invariant
            i <= params.len(),
            out@ == rendered(template@, pair_views(params@).take(i as int)),
        decreases params.len() - i,
    {
        proof {
            let next = pair_views(params@).take(i + 1);
            assert(next.drop_last() == pair_views(params@).take(i as int));
            assert(next.last() == (params@[i as int].0@, params@[i as int].1@));
        }
        let mut needle: Vec<char> = Vec::new();
        needle.push('{');
        needle.push('{');
        let key = chars_of(params[i].0.as_str());
        append_chars(&mut needle, &key);
        needle.push('}');
        needle.push('}');
        assert(needle@ =~= placeholder(params@[i as int].0@));
        let value = chars_of(params[i].1.as_str());
        out = replace_chars(&out, &needle, &value);
        i += 1;
    }
    assert(pair_views(params@).take(params.len() as int) == pair_views(params@));
    out
}

/// Fills the values into a command template.
pub fn render_template(template: &str, params: &Vec<(String, String)>) -> (out: String)
    ensures
        out@ == rendered(template@, pair_views(params@)),
{
    let chars = chars_of(template);
    let out = render_chars(&chars, params);
    string_of(&out)
}


// ---------------------------------------------------------------------------
// The order of a catalog
// ---------------------------------------------------------------------------

/// What a catalog is ordered by: the lowercase name.
pub open spec fn name_key(command: CommandEntry) -> Seq<char> {
    unicode_lowercase(command.name@)
}

/// `sorted` with `x` added behind every entry whose key `x` does not come
/// strictly before.
pub open spec fn placed(sorted: Seq<CommandEntry>, x: CommandEntry) -> Seq<CommandEntry>
    decreases sorted.len(),
{
    if sorted.len() > 0 && lex_lt(name_key(x), name_key(sorted.last())) {
        placed(sorted.drop_last(), x).push(sorted.last())
    } else {
        sorted.push(x)
    }
}

/// The entries ordered by lowercase name; entries with the same key keep
/// the order they came in.
pub open spec fn by_name(commands: Seq<CommandEntry>) -> Seq<CommandEntry>
    decreases commands.len(),
{
    if commands.len() == 0 {
        Seq::empty()
    } else {
        placed(by_name(commands.drop_last()), commands.last())
    }
}

/// Placing an entry puts it in front of the entries that it comes strictly before.
pub proof fn lemma_placed_at(sorted: Seq<CommandEntry>, x: CommandEntry, pos: int)
    requires
        0 <= pos <= sorted.len(),
        forall|j: int| pos <= j < sorted.len() ==> lex_lt(name_key(x), name_key(#[trigger] sorted[j])),
        pos == 0 || !lex_lt(name_key(x), name_key(sorted[pos - 1])),
    ensures
        placed(sorted, x) == sorted.insert(pos, x),
    decreases sorted.len() - pos,
{
    if pos == sorted.len() {
        assert(sorted.insert(pos, x) =~= sorted.push(x));
    } else {
        let front = sorted.drop_last();
        assert(lex_lt(name_key(x), name_key(sorted.last())));
        assert forall|j: int| pos <= j < front.len() implies lex_lt(
            name_key(x),
            name_key(#[trigger] front[j]),
        ) by {
            assert(front[j] == sorted[j]);
        }
        lemma_placed_at(front, x, pos);
        assert(front.insert(pos, x).push(sorted.last()) =~= sorted.insert(pos, x));
    }
}

/// Ordering a catalog keeps the number of its entries.
pub proof fn lemma_by_name_len(commands: Seq<CommandEntry>)
    ensures
        by_name(commands).len() == commands.len(),
    decreases commands.len(),
{
    if commands.len() > 0 {
        lemma_by_name_len(commands.drop_last());
        lemma_placed_len(by_name(commands.drop_last()), commands.last());
    }
}

/// Placing an entry adds one entry.
pub proof fn lemma_placed_len(sorted: Seq<CommandEntry>, x: CommandEntry)
    ensures
        placed(sorted, x).len() == sorted.len() + 1,
    decreases sorted.len(),
{
    if sorted.len() > 0 && lex_lt(name_key(x), name_key(sorted.last())) {
        lemma_placed_len(sorted.drop_last(), x);
    }
}

/// Orders a catalog by lowercase name.
pub fn sort_by_name(commands: Vec<CommandEntry>) -> (out: Vec<CommandEntry>)
    ensures
        out@ == by_name(commands@),
        out@.len() == commands@.len(),
{
    let ghost all = commands@;
    let mut rest = commands;
    let mut out: Vec<CommandEntry> = Vec::new();
    let mut keys: Vec<Vec<char>> = Vec::new();
    let ghost mut done: int = 0;
    assert(all.take(0) =~= Seq::empty());
    assert(all.skip(0) =~= all);
    while rest.len() > 0
        invariant
            0 <= done <= all.len(),
            rest@ == all.skip(done),
            out@ == by_name(all.take(done)),
            keys@.len() == out@.len(),
            forall|j: int| 0 <= j < out@.len() ==> (#[trigger] keys@[j])@ == name_key(out@[j]),
        decreases rest.len(),
    {
        let x = rest.remove(0);
        proof {
            assert(x == all[done]);
            let next = all.take(done + 1);
            assert(next.drop_last() == all.take(done));
            assert(next.last() == x);
            assert(rest@ =~= all.skip(done + 1));
        }
        let lower = x.name.as_str().to_lowercase();
        let key = chars_of(lower.as_str());
        let mut pos: usize = out.len();
        while pos > 0 && less_chars(&key, &keys[pos - 1])
            invariant
                pos <= out.len(),
                keys@.len() == out@.len(),
                key@ == name_key(x),
                forall|j: int| 0 <= j < out@.len() ==> (#[trigger] keys@[j])@ == name_key(out@[j]),
                forall|j: int| pos <= j < out@.len() ==> lex_lt(name_key(x), name_key(#[trigger] out@[j])),
            decreases pos,
        {
            pos -= 1;
        }
        proof {
            lemma_placed_at(out@, x, pos as int);
        }
        let ghost before_keys = keys@;
        let ghost before_out = out@;
        out.insert(pos, x);
        keys.insert(pos, key);
        proof {
            done = done + 1;
            assert forall|j: int| 0 <= j < out@.len() implies (#[trigger] keys@[j])@ == name_key(
                out@[j],
            ) by {
                if j < pos {
                    assert(keys@[j] == before_keys[j] && out@[j] == before_out[j]);
                } else if j > pos {
                    assert(keys@[j] == before_keys[j - 1] && out@[j] == before_out[j - 1]);
                }
            }
        }
    }
    assert(all.take(all.len() as int) == all);
    proof {
        lemma_by_name_len(all);
    }
    out
}

} // verus!
