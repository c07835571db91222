//! Keys, typed answers and the editing of a line of text.

use crate::text::{
    ascii_lowercase, chars_of, rows, same_chars, split_tokens, string_of, to_ascii_lowercase,
    tokens, trim_chars, trimmed, CharClass,
};
use vstd::prelude::*;

verus! {

// ---------------------------------------------------------------------------
// Keys
// ---------------------------------------------------------------------------

#[derive(Clone, Copy, Debug, PartialEq, Eq)]
pub enum KeyCode {
    Esc,
    Enter,
    Tab,
    Left,
    Right,
    Home,
    End,
    Up,
    Down,
    PageUp,
    PageDown,
    Backspace,
    Delete,
    Char(char),
    /// Any key that the launcher has no use for.
    Other,
}

/// A key press with the modifiers held down.
#[derive(Clone, Copy, Debug, PartialEq, Eq)]
pub struct Key {
    pub code: KeyCode,
    pub shift: bool,
    pub control: bool,
    pub alt: bool,
    /// Whether a modifier other than shift, control and alt was held.
    pub other_modifier: bool,
}

impl Key {
    /// Whether no modifier but shift is held: the key types its character.
    pub open spec fn types(self) -> bool {
        !self.control && !self.alt && !self.other_modifier
    }

    /// A key press without modifiers.
    pub fn plain(code: KeyCode) -> (key: Key)
        ensures
            key == (Key { code, shift: false, control: false, alt: false, other_modifier: false }),
    {
        Key { code, shift: false, control: false, alt: false, other_modifier: false }
    }

    /// Whether the key types its character.
    pub fn is_typing(&self) -> (r: bool)
        ensures
            r == self.types(),
    {
        !self.control && !self.alt && !self.other_modifier
    }
}

// ---------------------------------------------------------------------------
// Answers
// ---------------------------------------------------------------------------

/// The answer that a text gives to a yes/no question: the default where it
/// is blank; else yes for `y`, `yes`, `true`, `1`, `on` and no for `n`, `no`,
/// `false`, `0`, `off`, in any ASCII case; else none.
pub open spec fn flag_answer(input: Seq<char>, default: bool) -> Option<bool> {
    let word = ascii_lowercase(trimmed(input));
    if trimmed(input).len() == 0 {
        Some(default)
    } else if word == "y"@ || word == "yes"@ || word == "true"@ || word == "1"@ || word == "on"@ {
        Some(true)
    } else if word == "n"@ || word == "no"@ || word == "false"@ || word == "0"@ || word == "off"@ {
        Some(false)
    } else {
        None
    }
}

fn is_word(text: &Vec<char>, word: &str) -> (r: bool)
    ensures
        r == (text@ == word@),
{
    let w = chars_of(word);
    same_chars(text, &w)
}

/// Reads the answer to a yes/no question.
pub fn flag_answer_of(input: &Vec<char>, default: bool) -> (r: Option<bool>)
    ensures
        r == flag_answer(input@, default),
{
    let inner = trim_chars(input);
    if inner.len() == 0 {
        return Some(default);
    }
    let word = to_ascii_lowercase(&inner);
    if is_word(&word, "y") || is_word(&word, "yes") || is_word(&word, "true") || is_word(&word, "1")
        || is_word(&word, "on") {
        Some(true)
    } else if is_word(&word, "n") || is_word(&word, "no") || is_word(&word, "false") || is_word(
        &word,
        "0",
    ) || is_word(&word, "off") {
        Some(false)
    } else {
        None
    }
}

/// Reads the answer to a yes/no question.
pub fn parse_flag_input(input: &str, default: bool) -> (r: Option<bool>)
    ensures
        r == flag_answer(input@, default),
{
    let chars = chars_of(input);
    flag_answer_of(&chars, default)
}

/// Whether a word asks to force.
pub open spec fn is_force_token(part: Seq<char>) -> bool {
    part == "--force"@ || part == "-f"@
}

/// Whether one of the parts from index `from` on is `--force` or `-f`.
pub open spec fn force_among(parts: Seq<Seq<char>>, from: int) -> bool {
    exists|i: int| from <= i < parts.len() && is_force_token(#[trigger] parts[i])
}

/// Whether one of the whitespace-separated parts of `text` is `--force` or `-f`.
pub open spec fn has_force_flag(text: Seq<char>) -> bool {
    force_among(tokens(text, CharClass::Whitespace), 0)
}

fn force_among_of(parts: &Vec<Vec<char>>, from: usize) -> (r: bool)
    ensures
        r == force_among(rows(parts@), from as int),
{
    let mut i: usize = from;
    while i < parts.len()
        invariant
            from <= i,
            forall|j: int| from <= j < i && j < parts.len() ==> !is_force_token(#[trigger] rows(parts@)[j]),
        decreases parts.len() - i,
    {
        assert(rows(parts@)[i as int] == parts@[i as int]@);
        if is_word(&parts[i], "--force") || is_word(&parts[i], "-f") {
            assert(is_force_token(rows(parts@)[i as int]));
            return true;
        }
        i += 1;
    }
    false
}

/// Whether a word of the query asks to force.
pub fn query_has_force_flag(query: &str) -> (r: bool)
    ensures
        r == has_force_flag(query@),
{
    let chars = chars_of(query);
    let parts = split_tokens(&chars, CharClass::Whitespace);
    force_among_of(&parts, 0)
}

// ---------------------------------------------------------------------------
// Internal commands
// ---------------------------------------------------------------------------

#[derive(Clone, Debug)]
pub enum InternalCommand {
    Reload,
    Init { force: bool },
    Unknown(String),
}

/// An internal command as plain values.
pub enum InternalCommandView {
    Reload,
    Init { force: bool },
    Unknown(Seq<char>),
}

impl InternalCommand {
    pub open spec fn view(self) -> InternalCommandView {
        match self {
            InternalCommand::Reload => InternalCommandView::Reload,
            InternalCommand::Init { force } => InternalCommandView::Init { force },
            InternalCommand::Unknown(name) => InternalCommandView::Unknown(name@),
        }
    }
}

/// A parsed internal command as plain values.
pub open spec fn command_view(command: Option<InternalCommand>) -> Option<InternalCommandView> {
    match command {
        Some(c) => Some(c.view()),
        None => None,
    }
}

/// The internal command that a query names, where it starts with a slash
/// once trimmed: the first word behind the slash, in ASCII lowercase, is the
/// name. `init` is forced where a later word is `--force` or `-f`.
pub open spec fn internal_command(query: Seq<char>) -> Option<InternalCommandView> {
    let text = trimmed(query);
    if !(text.len() > 0 && text[0] == '/') {
        None
    } else {
        let parts = tokens(text.skip(1), CharClass::Whitespace);
        if parts.len() == 0 {
            Some(InternalCommandView::Unknown(Seq::empty()))
        } else {
            let name = ascii_lowercase(parts[0]);
            if name == "reload"@ {
                Some(InternalCommandView::Reload)
            } else if name == "init"@ {
                Some(InternalCommandView::Init { force: force_among(parts, 1) })
            } else {
                Some(InternalCommandView::Unknown(name))
            }
        }
    }
}

/// Reads the internal command that a query names.
pub fn parse_internal_chars(query: &Vec<char>) -> (r: Option<InternalCommand>)
    ensures
        command_view(r) == internal_command(query@),
{
    let text = trim_chars(query);
    if !(text.len() > 0 && text[0] == '/') {
        return None;
    }
    let body = crate::text::copy_range(&text, 1, text.len());
    assert(body@ == text@.skip(1));
    let parts = split_tokens(&body, CharClass::Whitespace);
    if parts.len() == 0 {
        let empty = String::new();
        assert(empty@ =~= Seq::<char>::empty());
        return Some(InternalCommand::Unknown(empty));
    }
    assert(rows(parts@)[0] == parts@[0]@);
    let name = to_ascii_lowercase(&parts[0]);
    if is_word(&name, "reload") {
        Some(InternalCommand::Reload)
    } else if is_word(&name, "init") {
        Some(InternalCommand::Init { force: force_among_of(&parts, 1) })
    } else {
        Some(InternalCommand::Unknown(string_of(&name)))
    }
}

/// Reads the internal command that a query names.
pub fn parse_internal_command(query: &str) -> (r: Option<InternalCommand>)
    ensures
        command_view(r) == internal_command(query@),
{
    let chars = chars_of(query);
    parse_internal_chars(&chars)
}

// ---------------------------------------------------------------------------
// Editing
// ---------------------------------------------------------------------------

/// The index at which a character typed at `cursor` goes in: the cursor,
/// or the end of the text where the cursor stands behind it.
pub open spec fn insertion_point(len: nat, cursor: usize) -> int {
    if cursor <= len {
        cursor as int
    } else {
        len as int
    }
}

/// Puts `ch` in front of the character with index `char_index`, counted in
/// characters, or at the end.
pub fn insert_char_at(value: &mut String, char_index: usize, ch: char)
    ensures
        final(value)@ == old(value)@.insert(insertion_point(old(value)@.len(), char_index), ch),
{
    let mut chars = chars_of(value.as_str());
    let at: usize = if char_index <= chars.len() {
        char_index
    } else {
        chars.len()
    };
    chars.insert(at, ch);
    *value = string_of(&chars);
}

/// Takes out the character with index `char_index`, counted in characters,
/// and says whether there was one.
pub fn remove_char_at(value: &mut String, char_index: usize) -> (removed: bool)
    ensures
        removed == (char_index < old(value)@.len()),
        removed ==> final(value)@ == old(value)@.remove(char_index as int),
        !removed ==> final(value)@ == old(value)@,
{
    let mut chars = chars_of(value.as_str());
    if char_index >= chars.len() {
        return false;
    }
    chars.remove(char_index);
    *value = string_of(&chars);
    true
}

/// Takes the last character off, where there is one.
pub fn pop_char(value: &mut String)
    ensures
        old(value)@.len() > 0 ==> final(value)@ == old(value)@.drop_last(),
        old(value)@.len() == 0 ==> final(value)@ == old(value)@,
{
    let mut chars = chars_of(value.as_str());
    if chars.len() > 0 {
        chars.pop();
        *value = string_of(&chars);
    }
}

/// How many bytes a character takes in UTF-8.
pub open spec fn utf8_width(c: char) -> nat {
    if (c as u32) < 0x80 {
        1
    } else if (c as u32) < 0x800 {
        2
    } else if (c as u32) < 0x1_0000 {
        3
    } else {
        4
    }
}

/// How many bytes a text takes in UTF-8.
pub open spec fn utf8_len(s: Seq<char>) -> nat
    decreases s.len(),
{
    if s.len() == 0 {
        0
    } else {
        utf8_len(s.drop_last()) + utf8_width(s.last())
    }
}

/// The byte at which the character with index `char_index` starts in the
/// UTF-8 form of the text; the length in bytes where the text has no such
/// character.
pub open spec fn byte_offset(s: Seq<char>, char_index: usize) -> nat {
    if char_index < s.len() {
        utf8_len(s.take(char_index as int))
    } else {
        utf8_len(s)
    }
}

/// The byte index of a character index. An index that no machine word can
/// hold is given as the largest word.
pub fn byte_index_for_char(value: &str, char_index: usize) -> (index: usize)
    ensures
        byte_offset(value@, char_index) <= usize::MAX ==> index == byte_offset(value@, char_index),
        byte_offset(value@, char_index) > usize::MAX ==> index == usize::MAX,
{
    let chars = chars_of(value);
    let end: usize = if char_index < chars.len() {
        char_index
    } else {
        chars.len()
    };
    assert(chars@.take(chars.len() as int) == chars@);
    let mut total: usize = 0;
    let mut i: usize = 0;
    assert(chars@.take(0) =~= Seq::empty());
    while i < end
        invariant
            i <= end <= chars.len(),
            utf8_len(chars@.take(i as int)) <= usize::MAX ==> total == utf8_len(
                chars@.take(i as int),
            ),
            utf8_len(chars@.take(i as int)) > usize::MAX ==> total == usize::MAX,
        decreases end - i,
    {
        let c = chars[i];
        proof {
            let next = chars@.take(i + 1);
            assert(next.drop_last() == chars@.take(i as int));
            assert(next.last() == c);
        }
        let code: u32 = c as u32;
        let width: usize = if code < 0x80 {
            1
        } else if code < 0x800 {
            2
        } else if code < 0x1_0000 {
            3
        } else {
            4
        };
        total = if total > usize::MAX - width {
            usize::MAX
        } else {
            total + width
        };
        i += 1;
    }
    total
}

/// How many characters the text has.
pub fn char_count(value: &str) -> (n: usize)
    ensures
        n == value@.len(),
{
    value.unicode_len()
}

} // verus!
