//! What the interface shows of the state: the texts and the styled segments
//! that a drawing layer puts on the screen.

use crate::ansi::{
    ansi_segments, parse_ansi_spans, segment_views, Color, Segment, TextStyle, Toggle,
};
use crate::app::{default_on, AppState, InternalPromptState, PromptState};
use crate::model::{CommandEntry, ParamSpec, ParamType};
use crate::run::spinner_text;
use crate::search::{
    command_provider_name, internal_commands, internal_def, SearchItem, INTERNAL_COMMANDS,
};
use crate::session::{ChatLine, ChatLineKind};
use crate::text::{
    append_chars, ascii_lowercase, chars_of, copy_range, decimal_text, has_prefix, push_decimal,
    same_chars, starts_with, string_of, to_ascii_lowercase,
};
use vstd::prelude::*;
use vstd::string::StringExecFns;

verus! {

/// A style with this foreground and nothing else.
pub open spec fn colored_style(color: Color) -> TextStyle {
    TextStyle { fg: Some(color), ..TextStyle::plain() }
}

/// A bold style with this foreground.
pub open spec fn bold_style(color: Color) -> TextStyle {
    TextStyle { fg: Some(color), bold: Toggle::On, ..TextStyle::plain() }
}

fn style_of(color: Color) -> (s: TextStyle)
    ensures
        s == colored_style(color),
{
    TextStyle::new().with_fg(color)
}

fn bold_of(color: Color) -> (s: TextStyle)
    ensures
        s == bold_style(color),
{
    TextStyle::new().with_fg(color).bolded()
}

fn segment(text: String, style: TextStyle) -> (s: Segment)
    ensures
        s.text@ == text@,
        s.style == style,
{
    Segment { text, style }
}

// ---------------------------------------------------------------------------
// The session log
// ---------------------------------------------------------------------------

/// The segments of one line of the session log: a marker for its kind, then
/// the text. Output of the command goes through the colour interpreter,
/// white for standard output and light red for standard error.
pub open spec fn chat_segments(kind: ChatLineKind, text: Seq<char>) -> Seq<(Seq<char>, TextStyle)> {
    match kind {
        ChatLineKind::Info => seq![
            ("• "@, colored_style(Color::Gray)),
            (text, colored_style(Color::Gray)),
        ],
        ChatLineKind::Command => seq![
            ("$ "@, bold_style(Color::Cyan)),
            (text, bold_style(Color::Cyan)),
        ],
        ChatLineKind::Stdout => seq![("  "@, colored_style(Color::DarkGray))] + ansi_segments(
            text,
            colored_style(Color::White),
            Color::White,
        ),
        ChatLineKind::Stderr => seq![("! "@, colored_style(Color::DarkGray))] + ansi_segments(
            text,
            colored_style(Color::LightRed),
            Color::LightRed,
        ),
    }
}

/// The segments of one line of the session log.
pub fn render_chat_line(entry: &ChatLine) -> (out: Vec<Segment>)
    ensures
        segment_views(out@) == chat_segments(entry.kind, entry.text@),
{
    let mut out: Vec<Segment> = Vec::new();
    match entry.kind {
        ChatLineKind::Info => {
            let style = style_of(Color::Gray);
            out.push(segment("• ".to_owned(), style));
            out.push(segment(entry.text.clone(), style));
            assert(segment_views(out@) =~= chat_segments(entry.kind, entry.text@));
        },
        ChatLineKind::Command => {
            let style = bold_of(Color::Cyan);
            out.push(segment("$ ".to_owned(), style));
            out.push(segment(entry.text.clone(), style));
            assert(segment_views(out@) =~= chat_segments(entry.kind, entry.text@));
        },
        ChatLineKind::Stdout => {
            out.push(segment("  ".to_owned(), style_of(Color::DarkGray)));
            let mut rest = parse_ansi_spans(entry.text.as_str(), style_of(Color::White), Color::White);
            let ghost tail = segment_views(rest@);
            let ghost head = segment_views(out@);
            out.append(&mut rest);
            assert(segment_views(out@) =~= head + tail);
            assert(head =~= seq![("  "@, colored_style(Color::DarkGray))]);
        },
        ChatLineKind::Stderr => {
            out.push(segment("! ".to_owned(), style_of(Color::DarkGray)));
            let mut rest = parse_ansi_spans(
                entry.text.as_str(),
                style_of(Color::LightRed),
                Color::LightRed,
            );
            let ghost tail = segment_views(rest@);
            let ghost head = segment_views(out@);
            out.append(&mut rest);
            assert(segment_views(out@) =~= head + tail);
            assert(head =~= seq![("! "@, colored_style(Color::DarkGray))]);
        },
    }
    out
}

// ---------------------------------------------------------------------------
// The list of commands
// ---------------------------------------------------------------------------

/// The name of a command as the list shows it: without the name of its
/// provider and a space in front, where it starts with them in any ASCII case.
pub open spec fn shown_name(name: Seq<char>, provider: Seq<char>) -> Seq<char> {
    let prefix = provider + seq![' '];
    if starts_with(ascii_lowercase(name), prefix) {
        name.skip(prefix.len() as int)
    } else {
        name
    }
}

/// The name of a command as the list shows it.
pub fn display_command_name(command: &CommandEntry, provider_name: &str) -> (out: String)
    ensures
        out@ == shown_name(command.name@, provider_name@),
{
    let mut prefix = chars_of(provider_name);
    prefix.push(' ');
    assert(prefix@ =~= provider_name@ + seq![' ']);
    let name = chars_of(command.name.as_str());
    let lower = to_ascii_lowercase(&name);
    if has_prefix(&lower, &prefix) {
        let rest = copy_range(&name, prefix.len(), name.len());
        string_of(&rest)
    } else {
        command.name.clone()
    }
}

/// The alias that stands for a provider: that of the first entry for it.
pub open spec fn alias_of(aliases: Seq<(String, String)>, provider: Seq<char>) -> Option<Seq<char>>
    decreases aliases.len(),
{
    if aliases.len() == 0 {
        None
    } else if aliases[0].1@ == provider {
        Some(aliases[0].0@)
    } else {
        alias_of(aliases.drop_first(), provider)
    }
}

/// What the list shows in front of a command: the alias of its provider,
/// or the name of the provider where it has no alias.
pub open spec fn badge(aliases: Seq<(String, String)>, provider: Seq<char>) -> Seq<char> {
    match alias_of(aliases, provider) {
        Some(alias) => alias,
        None => provider,
    }
}

/// What the list shows in front of a command of this provider.
pub fn provider_badge(aliases: &Vec<(String, String)>, provider_name: &str) -> (out: String)
    ensures
        out@ == badge(aliases@, provider_name@),
{
    let wanted = chars_of(provider_name);
    let mut i: usize = 0;
    assert(aliases@.skip(0) == aliases@);
    while i < aliases.len()
        invariant
            i <= aliases.len(),
            wanted@ == provider_name@,
            alias_of(aliases@, provider_name@) == alias_of(aliases@.skip(i as int), provider_name@),
        decreases aliases.len() - i,
    {
        let ghost rest = aliases@.skip(i as int);
        assert(rest[0] == aliases@[i as int]);
        assert(rest.drop_first() == aliases@.skip(i + 1));
        let p = chars_of(aliases[i].1.as_str());
        if same_chars(&p, &wanted) {
            return aliases[i].0.clone();
        }
        i += 1;
    }
    provider_name.to_owned()
}

/// The title of the list: how many commands match, of how many, and
/// whether the list has the focus.
pub open spec fn title_text(shown: nat, total: nat, active: bool) -> Seq<char> {
    "Commands ("@ + decimal_text(shown) + seq!['/'] + decimal_text(total) + if active {
        ") [active]"@
    } else {
        ")"@
    }
}

/// The title of the list of commands.
pub fn commands_title(shown: usize, total: usize, active: bool) -> (out: String)
    ensures
        out@ == title_text(shown as nat, total as nat, active),
{
    let mut chars = chars_of("Commands (");
    push_decimal(&mut chars, shown as u64);
    chars.push('/');
    push_decimal(&mut chars, total as u64);
    let tail = if active {
        chars_of(") [active]")
    } else {
        chars_of(")")
    };
    append_chars(&mut chars, &tail);
    assert(chars@ =~= title_text(shown as nat, total as nat, active));
    string_of(&chars)
}

/// The row of a catalog entry: its badge in brackets, its name, and its
/// description behind a bar where it has one.
pub open spec fn command_row_segments(command: CommandEntry, aliases: Seq<(String, String)>) -> Seq<
    (Seq<char>, TextStyle),
> {
    let provider = command.source.provider();
    let head = seq![
        (seq!['['] + badge(aliases, provider) + seq![']', ' '], bold_style(Color::LightCyan)),
        (shown_name(command.name@, provider), colored_style(Color::White)),
    ];
    match command.description {
        Some(d) => head.push((seq![' ', '|', ' '] + d@, colored_style(Color::DarkGray))),
        None => head,
    }
}

/// The row of an internal command.
pub open spec fn internal_row_segments(index: int) -> Seq<(Seq<char>, TextStyle)> {
    seq![
        ("[internal] "@, bold_style(Color::LightGreen)),
        (internal_def(index).name@, colored_style(Color::White)),
        (seq![' ', '|', ' '] + internal_def(index).description@, colored_style(Color::DarkGray)),
    ]
}

/// The row that the list shows for a result; nothing for a result that
/// refers to no command.
pub open spec fn row_segments(app: AppState, item: SearchItem) -> Seq<(Seq<char>, TextStyle)> {
    match item {
        SearchItem::Command(index) => if index < app.commands@.len() {
            command_row_segments(app.commands@[index as int], app.provider_aliases@)
        } else {
            Seq::empty()
        },
        SearchItem::Internal(index) => if index < INTERNAL_COMMANDS {
            internal_row_segments(index as int)
        } else {
            Seq::empty()
        },
    }
}

fn barred(text: &str) -> (out: String)
    ensures
        out@ == seq![' ', '|', ' '] + text@,
{
    let mut chars: Vec<char> = Vec::new();
    chars.push(' ');
    chars.push('|');
    chars.push(' ');
    let tail = chars_of(text);
    append_chars(&mut chars, &tail);
    assert(chars@ =~= seq![' ', '|', ' '] + text@);
    string_of(&chars)
}

/// The row that the list shows for a result.
pub fn command_row(app: &AppState, item: SearchItem) -> (out: Vec<Segment>)
    ensures
        segment_views(out@) == row_segments(*app, item),
{
    let mut out: Vec<Segment> = Vec::new();
    match item {
        SearchItem::Command(index) => {
            if index < app.commands.len() {
                let command = &app.commands[index];
                let provider = command_provider_name(command);
                let label = provider_badge(&app.provider_aliases, provider);
                let mut chars: Vec<char> = Vec::new();
                chars.push('[');
                let label_chars = chars_of(label.as_str());
                append_chars(&mut chars, &label_chars);
                chars.push(']');
                chars.push(' ');
                assert(chars@ =~= seq!['['] + badge(app.provider_aliases@, provider@) + seq![
                    ']',
                    ' ',
                ]);
                out.push(segment(string_of(&chars), bold_of(Color::LightCyan)));
                out.push(segment(display_command_name(command, provider), style_of(Color::White)));
                match &command.description {
                    Some(d) => {
                        out.push(segment(barred(d.as_str()), style_of(Color::DarkGray)));
                    },
                    None => {},
                }
                assert(segment_views(out@) =~= row_segments(*app, item));
            } else {
                assert(segment_views(out@) =~= row_segments(*app, item));
            }
        },
        SearchItem::Internal(index) => {
            if index < INTERNAL_COMMANDS {
                let defs = internal_commands();
                out.push(segment("[internal] ".to_owned(), bold_of(Color::LightGreen)));
                out.push(segment(defs[index].name.to_owned(), style_of(Color::White)));
                out.push(segment(barred(defs[index].description), style_of(Color::DarkGray)));
                assert(segment_views(out@) =~= row_segments(*app, item));
            } else {
                assert(segment_views(out@) =~= row_segments(*app, item));
            }
        },
    }
    out
}

// ---------------------------------------------------------------------------
// Bars
// ---------------------------------------------------------------------------

/// The text of the search bar.
pub open spec fn search_text(app: AppState) -> Seq<char> {
    if app.is_loading {
        "Search: "@ + spinner_text((app.spinner_index % crate::app::SPINNER_FRAMES) as int)
            + " Running "@ + match app.loading_label {
            Some(label) => label@,
            None => "command"@,
        } + " (Esc to interrupt)"@
    } else if app.active_pane is Session {
        "Search: "@ + app.query@ + "  [session active]"@
    } else {
        "Search: "@ + app.query@
    }
}

/// The text of the search bar.
pub fn search_bar_text(app: &AppState) -> (out: String)
    ensures
        out@ == search_text(*app),
{
    let mut out = "Search: ".to_owned();
    if app.is_loading {
        out.append(app.spinner_frame());
        out.append(" Running ");
        match &app.loading_label {
            Some(label) => out.append(label.as_str()),
            None => out.append("command"),
        }
        out.append(" (Esc to interrupt)");
    } else {
        out.append(app.query.as_str());
        match app.active_pane {
            crate::app::ActivePane::Session => out.append("  [session active]"),
            crate::app::ActivePane::Commands => {},
        }
    }
    assert(out@ =~= search_text(*app));
    out
}

/// The hint under the search bar.
pub open spec fn hint(app: AppState) -> Seq<char> {
    if app.show_help {
        "  Press ? or Esc to close help"@
    } else if app.is_loading {
        "  Esc to interrupt"@
    } else {
        "  ? for help"@
    }
}

/// The hint under the search bar.
pub fn hint_text(app: &AppState) -> (out: &'static str)
    ensures
        out@ == hint(*app),
{
    if app.show_help {
        "  Press ? or Esc to close help"
    } else if app.is_loading {
        "  Esc to interrupt"
    } else {
        "  ? for help"
    }
}

// ---------------------------------------------------------------------------
// Prompts
// ---------------------------------------------------------------------------

/// What a prompt tells about the answer it expects.
pub open spec fn helper_text(param: ParamSpec) -> Seq<char> {
    match param.kind {
        ParamType::Value => match param.placeholder {
            Some(p) => "placeholder: "@ + p@,
            None => match param.default_value {
                Some(d) => "placeholder: "@ + d@,
                None => Seq::empty(),
            },
        },
        ParamType::Flag => if default_on(param) {
            "answer: y/n (Enter = yes)"@
        } else {
            "answer: y/n (Enter = no)"@
        },
    }
}

/// The four lines of a prompt: the question with the position among the
/// questions, the helper, the command, and what was typed.
pub open spec fn prompt_texts(command: CommandEntry, prompt: PromptState) -> Seq<Seq<char>> {
    let param = command.params@[prompt.pending_params@[prompt.current_param as int] as int];
    seq![
        param.prompt@ + seq![' ', '('] + decimal_text((prompt.current_param + 1) as nat) + seq!['/']
            + decimal_text(prompt.pending_params@.len()) + seq![')'],
        helper_text(param),
        "command: "@ + command.name@,
        "> "@ + prompt.input@,
    ]
}

fn joined(head: &str, tail: &str) -> (out: String)
    ensures
        out@ == head@ + tail@,
{
    let mut out = head.to_owned();
    out.append(tail);
    out
}

/// The lines of the prompt that is open for a parameter.
pub fn prompt_lines(app: &AppState, prompt: &PromptState) -> (out: Vec<String>)
    requires
        crate::app::prompt_fits(*prompt, app.commands@),
    ensures
        crate::text::views(out@) == prompt_texts(app.commands@[prompt.command_index as int], *prompt),
{
    let command = &app.commands[prompt.command_index];
    let param = &command.params[prompt.pending_params[prompt.current_param]];
    let mut heading = chars_of(param.prompt.as_str());
    heading.push(' ');
    heading.push('(');
    let total = prompt.pending_params.len();
    push_decimal(&mut heading, (prompt.current_param + 1) as u64);
    heading.push('/');
    push_decimal(&mut heading, total as u64);
    heading.push(')');
    assert(heading@ =~= param.prompt@ + seq![' ', '('] + decimal_text(
        (prompt.current_param + 1) as nat,
    ) + seq!['/'] + decimal_text(prompt.pending_params@.len()) + seq![')']);
    let helper = match param.kind {
        ParamType::Value => match &param.placeholder {
            Some(p) => joined("placeholder: ", p.as_str()),
            None => match &param.default_value {
                Some(d) => joined("placeholder: ", d.as_str()),
                None => String::new(),
            },
        },
        ParamType::Flag => {
            let on = match param.default_flag {
                Some(b) => b,
                None => false,
            };
            if on {
                "answer: y/n (Enter = yes)".to_owned()
            } else {
                "answer: y/n (Enter = no)".to_owned()
            }
        },
    };
    let mut out: Vec<String> = Vec::new();
    out.push(string_of(&heading));
    out.push(helper);
    out.push(joined("command: ", command.name.as_str()));
    out.push(joined("> ", prompt.input.as_str()));
    assert(crate::text::views(out@) =~= prompt_texts(
        app.commands@[prompt.command_index as int],
        *prompt,
    ));
    out
}

/// The four lines of the prompt of an internal command.
pub open spec fn internal_prompt_texts(prompt: InternalPromptState) -> Seq<Seq<char>> {
    let def = internal_def(prompt.command_index as int);
    seq![
        "Use --force?"@,
        if def.default_force {
            "answer: y/n (Enter = yes)"@
        } else {
            "answer: y/n (Enter = no)"@
        },
        "command: "@ + def.name@,
        "> "@ + prompt.input@,
    ]
}

/// The lines of the prompt of an internal command.
pub fn internal_prompt_lines(prompt: &InternalPromptState) -> (out: Vec<String>)
    requires
        prompt.command_index < INTERNAL_COMMANDS,
    ensures
        crate::text::views(out@) == internal_prompt_texts(*prompt),
{
    let defs = internal_commands();
    let def = defs[prompt.command_index];
    let mut out: Vec<String> = Vec::new();
    out.push("Use --force?".to_owned());
    out.push(
        if def.default_force {
            "answer: y/n (Enter = yes)".to_owned()
        } else {
            "answer: y/n (Enter = no)".to_owned()
        },
    );
    out.push(joined("command: ", def.name));
    out.push(joined("> ", prompt.input.as_str()));
    assert(crate::text::views(out@) =~= internal_prompt_texts(*prompt));
    out
}

} // verus!
