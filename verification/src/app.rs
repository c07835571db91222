//! The interactive state machine: one state, one active mode, and a
//! transition for every key.

use crate::input::{
    char_count, flag_answer, flag_answer_of, has_force_flag, insert_char_at, insertion_point,
    internal_command, parse_internal_chars, pop_char, query_has_force_flag, remove_char_at,
    InternalCommand, InternalCommandView, Key, KeyCode,
};
use crate::model::{
    assign, assigned, pair_views, render_template, rendered, CommandEntry, ParamSpec, ParamType,
};
use crate::rank::text_of;
use crate::search::{
    command_usage_key, find_results, internal_def, search_results, usage_key, InternalCommandKind,
    RankingSettings, SearchItem, INTERNAL_COMMANDS,
};
use crate::session::{
    line_views, log_pushed, push_bounded, scroll_after_push, scroll_by, scrolled, ChatLine,
    ChatLineKind, MAX_CHAT_LINES,
};
use crate::text::{chars_of, contains_text, has_text, string_of, trim_chars, trimmed};
use vstd::arithmetic::div_mod::{lemma_fundamental_div_mod, lemma_fundamental_div_mod_converse};
use vstd::prelude::*;
use vstd::string::StringExecFns;

verus! {

#[derive(Clone, Copy, Debug, PartialEq, Eq)]
pub enum ActivePane {
    Commands,
    Session,
}

/// Where the launcher was started and with which configuration file.
#[derive(Debug, Clone)]
pub struct RuntimeContext {
    pub cwd: String,
    pub explicit_config_path: Option<String>,
}

/// A command line that is ready to run.
#[derive(Debug, Clone)]
pub struct RunRequest {
    pub display_name: String,
    pub command_line: String,
    pub working_dir: Option<String>,
    pub usage_key: String,
    pub return_to_tui: bool,
}

#[derive(Debug, Clone)]
pub struct InternalRunRequest {
    pub command: InternalCommand,
}

/// What the caller has to do after a key.
#[derive(Debug, Clone)]
pub enum UiAction {
    /// Nothing to do but draw again.
    Idle,
    Quit,
    Run(RunRequest),
    RunInternal(InternalRunRequest),
}

/// The collection of parameters for one command.
#[derive(Debug, Clone)]
pub struct PromptState {
    pub command_index: usize,
    /// The indices of the parameters that are asked for, in declaration order.
    pub pending_params: Vec<usize>,
    /// The position in `pending_params` of the parameter asked for now.
    pub current_param: usize,
    pub input: String,
    pub values: Vec<(String, String)>,
    pub return_to_tui: bool,
}

#[derive(Debug, Clone)]
pub struct InternalPromptState {
    pub command_index: usize,
    pub input: String,
}

#[derive(Debug, Clone)]
pub enum Mode {
    Search,
    Prompt(PromptState),
    InternalPrompt(InternalPromptState),
}

/// A catalog and its settings as a reload hands them over.
pub struct ReloadPayload {
    pub commands: Vec<CommandEntry>,
    pub config_path: Option<String>,
    pub provider_aliases: Vec<(String, String)>,
    pub ranking: RankingSettings,
}

/// How many frames the loading indicator has.
pub const SPINNER_FRAMES: usize = 10;

pub struct AppState {
    pub commands: Vec<CommandEntry>,
    pub filtered: Vec<SearchItem>,
    pub selected: usize,
    pub query: String,
    /// The cursor in the query, counted in characters.
    pub query_cursor: usize,
    pub mode: Mode,
    pub chat: Vec<ChatLine>,
    pub config_path: Option<String>,
    /// Alias and provider name, one entry per alias.
    pub provider_aliases: Vec<(String, String)>,
    pub ranking: RankingSettings,
    /// Usage key and number of runs.
    pub usage_counts: Vec<(String, u64)>,
    pub is_loading: bool,
    pub loading_label: Option<String>,
    pub spinner_index: usize,
    pub show_help: bool,
    pub runtime: RuntimeContext,
    pub active_pane: ActivePane,
    pub session_scroll: usize,
}

// ---------------------------------------------------------------------------
// What the transitions say
// ---------------------------------------------------------------------------

/// Whether the prompt refers to a command and to parameters that exist.
pub open spec fn prompt_fits(p: PromptState, commands: Seq<CommandEntry>) -> bool {
    &&& p.command_index < commands.len()
    &&& p.current_param < p.pending_params@.len()
    &&& forall|j: int|
        0 <= j < p.pending_params@.len() ==> (#[trigger] p.pending_params@[j])
            < commands[p.command_index as int].params@.len()
}

/// The results of `query` on the catalog and settings of `s`.
pub open spec fn results_of(s: AppState, query: Seq<char>) -> Seq<SearchItem> {
    search_results(s.commands@, query, s.provider_aliases@, s.usage_counts@, s.ranking)
}

/// `post` is `pre` with one more line in the session log.
pub open spec fn line_added(pre: AppState, kind: ChatLineKind, text: Seq<char>, post: AppState) -> bool {
    &&& post == (AppState { chat: post.chat, session_scroll: post.session_scroll, ..pre })
    &&& line_views(post.chat@) == log_pushed(line_views(pre.chat@), kind, text)
    &&& post.session_scroll == scroll_after_push(
        pre.session_scroll,
        pre.chat@.len(),
        pre.active_pane is Commands,
    )
}

/// `post` is `pre` with the results computed anew and the first one selected.
pub open spec fn refreshed(pre: AppState, post: AppState) -> bool {
    &&& post == (AppState { filtered: post.filtered, selected: 0, ..pre })
    &&& post.filtered@ == results_of(pre, pre.query@)
}

/// `post` is `pre` with another query and cursor, the results of that query
/// and the first one selected.
pub open spec fn requeried(pre: AppState, query: Seq<char>, cursor: usize, post: AppState) -> bool {
    &&& post == (AppState {
        query: post.query,
        query_cursor: cursor,
        filtered: post.filtered,
        selected: 0,
        ..pre
    })
    &&& post.query@ == query
    &&& post.filtered@ == results_of(pre, query)
}

/// The selection after `direction` steps through `len` results, wrapping
/// round at both ends.
pub open spec fn moved(selected: usize, len: nat, direction: int) -> int {
    if len == 0 {
        0
    } else {
        (selected + direction) % (len as int)
    }
}

/// The catalog entry that is selected, where a catalog entry is.
pub open spec fn current_command(s: AppState) -> Option<usize> {
    if s.selected < s.filtered@.len() {
        match s.filtered@[s.selected as int] {
            SearchItem::Command(i) => if i < s.commands@.len() {
                Some(i)
            } else {
                None
            },
            SearchItem::Internal(_) => None,
        }
    } else {
        None
    }
}

/// The internal command that is selected, where an internal command is.
pub open spec fn current_internal(s: AppState) -> Option<usize> {
    if s.selected < s.filtered@.len() {
        match s.filtered@[s.selected as int] {
            SearchItem::Internal(i) => if i < INTERNAL_COMMANDS {
                Some(i)
            } else {
                None
            },
            SearchItem::Command(_) => None,
        }
    } else {
        None
    }
}

/// The text that a flag stands for in a command line.
pub open spec fn flag_text(param: ParamSpec, on: bool) -> Seq<char> {
    if on {
        param.token()
    } else {
        Seq::empty()
    }
}

/// The value of a parameter that is known without asking: a hardcoded value,
/// or the default of a value parameter that is never asked for.
pub open spec fn preset(param: ParamSpec) -> Option<Seq<char>> {
    match param.kind {
        ParamType::Value => match param.value_value {
            Some(v) => Some(v@),
            None => if param.needs_input() {
                None
            } else {
                text_of(param.default_value)
            },
        },
        ParamType::Flag => match param.value_flag {
            Some(on) => Some(flag_text(param, on)),
            None => None,
        },
    }
}

/// The values that are known before the first question.
pub open spec fn initial_values(params: Seq<ParamSpec>) -> Seq<(Seq<char>, Seq<char>)>
    decreases params.len(),
{
    if params.len() == 0 {
        Seq::empty()
    } else {
        let before = initial_values(params.drop_last());
        match preset(params.last()) {
            Some(v) => assigned(before, params.last().name@, v),
            None => before,
        }
    }
}

/// The indices of the parameters that are asked for, in declaration order.
pub open spec fn pending_params(params: Seq<ParamSpec>) -> Seq<usize>
    decreases params.len(),
{
    if params.len() == 0 {
        Seq::empty()
    } else {
        let before = pending_params(params.drop_last());
        if params.last().needs_input() {
            before.push((params.len() - 1) as usize)
        } else {
            before
        }
    }
}

/// Every pending index is the index of a parameter.
pub proof fn lemma_pending_in_range(params: Seq<ParamSpec>)
    ensures
        forall|j: int|
            0 <= j < pending_params(params).len() ==> (#[trigger] pending_params(params)[j])
                < params.len(),
    decreases params.len(),
{
    if params.len() > 0 {
        let before = pending_params(params.drop_last());
        lemma_pending_in_range(params.drop_last());
        assert forall|j: int| 0 <= j < pending_params(params).len() implies (#[trigger] pending_params(
            params,
        )[j]) < params.len() by {
            if j < before.len() {
                assert(pending_params(params)[j] == before[j]);
            }
        }
    }
}

/// Whether a rendered command line still holds a placeholder.
pub open spec fn unresolved(line: Seq<char>) -> bool {
    contains_text(line, "{{"@) && contains_text(line, "}}"@)
}

/// Whether the action is the run of `command` with the command line `line`.
pub open spec fn is_run(
    action: UiAction,
    command: CommandEntry,
    line: Seq<char>,
    return_to_tui: bool,
) -> bool {
    &&& action matches UiAction::Run(r)
    &&& r.display_name@ == command.name@
    &&& r.command_line@ == line
    &&& text_of(r.working_dir) == text_of(command.working_dir)
    &&& r.usage_key@ == usage_key(command)
    &&& r.return_to_tui == return_to_tui
}

/// Whether the action is the run of the internal command.
pub open spec fn is_internal_run(action: UiAction, command: InternalCommandView) -> bool {
    &&& action matches UiAction::RunInternal(r)
    &&& r.command.view() == command
}

/// The outcome once every value is known: the values are filled into the
/// template. A line that still holds a placeholder is reported and nothing
/// runs; else the query is cleared and the command line is handed out.
pub open spec fn run_requested(
    pre: AppState,
    index: usize,
    values: Seq<(Seq<char>, Seq<char>)>,
    return_to_tui: bool,
    post: AppState,
    action: UiAction,
) -> bool {
    let command = pre.commands@[index as int];
    let line = rendered(command.template@, values);
    if unresolved(line) {
        &&& line_added(
            pre,
            ChatLineKind::Info,
            "Command '"@ + command.name@ + "' still has unresolved placeholders"@,
            post,
        )
        &&& action is Idle
    } else {
        &&& requeried(pre, Seq::empty(), 0, post)
        &&& is_run(action, command, line, return_to_tui)
    }
}

/// The outcome of Enter on a selected catalog entry.
pub open spec fn command_submitted(pre: AppState, return_to_tui: bool, post: AppState, action: UiAction) -> bool {
    match current_command(pre) {
        None => line_added(pre, ChatLineKind::Info, "No command selected"@, post) && action is Idle,
        Some(index) => {
            let params = pre.commands@[index as int].params@;
            if pending_params(params).len() == 0 {
                run_requested(pre, index, initial_values(params), return_to_tui, post, action)
            } else {
                &&& action is Idle
                &&& post == (AppState { mode: post.mode, ..pre })
                &&& post.mode matches Mode::Prompt(p)
                &&& p.command_index == index
                &&& p.pending_params@ == pending_params(params)
                &&& p.current_param == 0
                &&& p.input@ == Seq::<char>::empty()
                &&& pair_views(p.values@) == initial_values(params)
                &&& p.return_to_tui == return_to_tui
            }
        },
    }
}

/// The outcome of Enter on an internal query.
pub open spec fn internal_submitted(pre: AppState, post: AppState, action: UiAction) -> bool {
    let text = trimmed(pre.query@);
    match internal_command(text) {
        Some(InternalCommandView::Reload) => post == pre && is_internal_run(
            action,
            InternalCommandView::Reload,
        ),
        Some(InternalCommandView::Init { force }) if has_force_flag(text) => post == pre
            && is_internal_run(action, InternalCommandView::Init { force }),
        _ => match current_internal(pre) {
            None => line_added(
                pre,
                ChatLineKind::Info,
                "Unknown internal command. Available: /reload, /init"@,
                post,
            ) && action is Idle,
            Some(index) => match internal_def(index as int).kind {
                InternalCommandKind::Reload => post == pre && is_internal_run(
                    action,
                    InternalCommandView::Reload,
                ),
                InternalCommandKind::Init => {
                    &&& action is Idle
                    &&& post == (AppState { mode: post.mode, ..pre })
                    &&& post.mode matches Mode::InternalPrompt(p)
                    &&& p.command_index == index
                    &&& p.input@ == Seq::<char>::empty()
                },
            },
        },
    }
}

/// What a key means while searching.
pub enum SearchKey {
    Help,
    TogglePane,
    Cancel,
    Submit { return_to_tui: bool },
    Left,
    Right,
    Home,
    End,
    /// Moves the selection, or scrolls the session log while that has the focus.
    Step { selection: isize, scroll: isize },
    Quit,
    Backspace,
    Delete,
    Insert(char),
    Ignored,
}

/// What a key means while searching. A question mark asks for help whatever is
/// held with it; control with `j`, `k` or `c` steps down, steps up or quits.
pub open spec fn search_key(key: Key) -> SearchKey {
    match key.code {
        KeyCode::Char(c) => if c == '?' {
            SearchKey::Help
        } else if key.control && c == 'j' {
            SearchKey::Step { selection: 1, scroll: -1isize }
        } else if key.control && c == 'k' {
            SearchKey::Step { selection: -1isize, scroll: 1 }
        } else if key.control && c == 'c' {
            SearchKey::Quit
        } else if key.types() {
            SearchKey::Insert(c)
        } else {
            SearchKey::Ignored
        },
        KeyCode::Tab => SearchKey::TogglePane,
        KeyCode::Esc => SearchKey::Cancel,
        KeyCode::Enter => SearchKey::Submit { return_to_tui: !key.alt },
        KeyCode::Left => SearchKey::Left,
        KeyCode::Right => SearchKey::Right,
        KeyCode::Home => SearchKey::Home,
        KeyCode::End => SearchKey::End,
        KeyCode::Up => SearchKey::Step { selection: -1isize, scroll: 1 },
        KeyCode::Down => SearchKey::Step { selection: 1, scroll: -1isize },
        KeyCode::PageUp => SearchKey::Step { selection: -10isize, scroll: 10 },
        KeyCode::PageDown => SearchKey::Step { selection: 10, scroll: -10isize },
        KeyCode::Backspace => SearchKey::Backspace,
        KeyCode::Delete => SearchKey::Delete,
        KeyCode::Other => SearchKey::Ignored,
    }
}

/// `pre` with the focus on the commands.
pub open spec fn focused(pre: AppState) -> AppState {
    AppState { active_pane: ActivePane::Commands, ..pre }
}

/// The transition of a key in search mode.
pub open spec fn search_step(pre: AppState, key: Key, post: AppState, action: UiAction) -> bool {
    let len = pre.query@.len();
    let cursor = pre.query_cursor;
    match search_key(key) {
        SearchKey::Help => post == (AppState { show_help: true, ..pre }) && action is Idle,
        SearchKey::TogglePane => post == (AppState {
            active_pane: if pre.active_pane is Commands {
                ActivePane::Session
            } else {
                ActivePane::Commands
            },
            ..pre
        }) && action is Idle,
        SearchKey::Cancel => if len == 0 {
            post == pre && action is Quit
        } else {
            requeried(focused(pre), Seq::empty(), 0, post) && action is Idle
        },
        SearchKey::Submit { return_to_tui } => if pre.active_pane is Session {
            post == pre && action is Idle
        } else if crate::search::is_internal(pre.query@) {
            internal_submitted(pre, post, action)
        } else {
            command_submitted(pre, return_to_tui, post, action)
        },
        SearchKey::Left => post == (AppState {
            query_cursor: if cursor > 0 {
                (cursor - 1) as usize
            } else {
                cursor
            },
            ..focused(pre)
        }) && action is Idle,
        SearchKey::Right => post == (AppState {
            query_cursor: if cursor < len {
                (cursor + 1) as usize
            } else {
                cursor
            },
            ..focused(pre)
        }) && action is Idle,
        SearchKey::Home => post == (AppState { query_cursor: 0, ..focused(pre) }) && action is Idle,
        SearchKey::End => post == (AppState { query_cursor: len as usize, ..focused(pre) })
            && action is Idle,
        SearchKey::Step { selection, scroll } => action is Idle && if pre.active_pane is Session {
            post == (AppState {
                session_scroll: scrolled(pre.session_scroll, pre.chat@.len(), scroll as int) as usize,
                ..pre
            })
        } else {
            post == (AppState {
                selected: moved(pre.selected, pre.filtered@.len(), selection as int) as usize,
                ..pre
            })
        },
        SearchKey::Quit => post == pre && action is Quit,
        SearchKey::Backspace => action is Idle && if 0 < cursor <= len {
            requeried(focused(pre), pre.query@.remove(cursor - 1), (cursor - 1) as usize, post)
        } else {
            post == focused(pre)
        },
        SearchKey::Delete => action is Idle && if cursor < len {
            requeried(focused(pre), pre.query@.remove(cursor as int), cursor, post)
        } else {
            post == focused(pre)
        },
        SearchKey::Insert(c) => action is Idle && requeried(
            focused(pre),
            pre.query@.insert(insertion_point(len, cursor), c),
            (cursor + 1) as usize,
            post,
        ),
        SearchKey::Ignored => post == pre && action is Idle,
    }
}

/// What a key means while a question is open.
pub enum PromptKey {
    Cancel,
    Backspace,
    Type(char),
    Submit,
    Ignored,
}

/// What a key means while a question is open.
pub open spec fn prompt_key(key: Key) -> PromptKey {
    match key.code {
        KeyCode::Esc => PromptKey::Cancel,
        KeyCode::Backspace => PromptKey::Backspace,
        KeyCode::Char(c) => if key.types() {
            PromptKey::Type(c)
        } else {
            PromptKey::Ignored
        },
        KeyCode::Enter => PromptKey::Submit,
        _ => PromptKey::Ignored,
    }
}

/// `pre` in search mode.
pub open spec fn searching(pre: AppState) -> AppState {
    AppState { mode: Mode::Search, ..pre }
}

/// The text without its last character.
pub open spec fn popped(text: Seq<char>) -> Seq<char> {
    if text.len() > 0 {
        text.drop_last()
    } else {
        text
    }
}

/// `post` is `pre` with the prompt `p` changed to the given position, input
/// and values.
pub open spec fn prompt_kept(
    pre: AppState,
    p: PromptState,
    current: int,
    input: Seq<char>,
    values: Seq<(Seq<char>, Seq<char>)>,
    post: AppState,
) -> bool {
    &&& post == (AppState { mode: post.mode, ..pre })
    &&& post.mode matches Mode::Prompt(q)
    &&& q.command_index == p.command_index
    &&& q.pending_params@ == p.pending_params@
    &&& q.current_param == current
    &&& q.input@ == input
    &&& pair_views(q.values@) == values
    &&& q.return_to_tui == p.return_to_tui
}

/// The outcome once the current parameter has its value: the next question,
/// or the run where it was the last.
pub open spec fn answered(
    pre: AppState,
    p: PromptState,
    values: Seq<(Seq<char>, Seq<char>)>,
    post: AppState,
    action: UiAction,
) -> bool {
    if p.current_param + 1 >= p.pending_params@.len() {
        run_requested(searching(pre), p.command_index, values, p.return_to_tui, post, action)
    } else {
        prompt_kept(pre, p, p.current_param + 1, Seq::empty(), values, post) && action is Idle
    }
}

/// The parameter that the prompt asks for.
pub open spec fn asked(pre: AppState, p: PromptState) -> ParamSpec {
    pre.commands@[p.command_index as int].params@[p.pending_params@[p.current_param as int] as int]
}

/// The answer of a flag where nothing is typed: its default, off where it has none.
pub open spec fn default_on(param: ParamSpec) -> bool {
    match param.default_flag {
        Some(b) => b,
        None => false,
    }
}

/// The transition of a key while a parameter is asked for.
pub open spec fn prompt_step(pre: AppState, key: Key, post: AppState, action: UiAction) -> bool {
    match pre.mode {
        Mode::Prompt(p) => {
            let param = asked(pre, p);
            let values = pair_views(p.values@);
            match prompt_key(key) {
                PromptKey::Cancel => line_added(
                    searching(pre),
                    ChatLineKind::Info,
                    "Parameter entry canceled"@,
                    post,
                ) && action is Idle,
                PromptKey::Backspace => prompt_kept(
                    pre,
                    p,
                    p.current_param as int,
                    popped(p.input@),
                    values,
                    post,
                ) && action is Idle,
                PromptKey::Type(c) => match flag_answer(seq![c], default_on(param)) {
                    Some(on) if param.kind is Flag => answered(
                        pre,
                        p,
                        assigned(values, param.name@, flag_text(param, on)),
                        post,
                        action,
                    ),
                    _ => prompt_kept(
                        pre,
                        p,
                        p.current_param as int,
                        p.input@.push(c),
                        values,
                        post,
                    ) && action is Idle,
                },
                PromptKey::Submit => {
                    let input = trimmed(p.input@);
                    match param.kind {
                        ParamType::Value => if input.len() > 0 {
                            answered(pre, p, assigned(values, param.name@, input), post, action)
                        } else {
                            match param.default_value {
                                Some(d) => answered(
                                    pre,
                                    p,
                                    if d@.len() > 0 {
                                        assigned(values, param.name@, d@)
                                    } else {
                                        values
                                    },
                                    post,
                                    action,
                                ),
                                None => if param.required {
                                    line_added(
                                        pre,
                                        ChatLineKind::Info,
                                        "'"@ + param.name@ + "' is required"@,
                                        post,
                                    ) && action is Idle
                                } else {
                                    answered(pre, p, values, post, action)
                                },
                            }
                        },
                        ParamType::Flag => match flag_answer(input, default_on(param)) {
                            Some(on) => answered(
                                pre,
                                p,
                                assigned(values, param.name@, flag_text(param, on)),
                                post,
                                action,
                            ),
                            None => line_added(
                                pre,
                                ChatLineKind::Info,
                                "Please enter y or n"@,
                                post,
                            ) && action is Idle,
                        },
                    }
                },
                PromptKey::Ignored => post == pre && action is Idle,
            }
        },
        _ => post == searching(pre) && action is Idle,
    }
}

/// The transition of a key while an internal command asks whether to force.
pub open spec fn internal_prompt_step(pre: AppState, key: Key, post: AppState, action: UiAction) -> bool {
    match pre.mode {
        Mode::InternalPrompt(p) => {
            let default = internal_def(p.command_index as int).default_force;
            match prompt_key(key) {
                PromptKey::Cancel => line_added(
                    searching(pre),
                    ChatLineKind::Info,
                    "Internal command canceled"@,
                    post,
                ) && action is Idle,
                PromptKey::Backspace => {
                    &&& action is Idle
                    &&& post == (AppState { mode: post.mode, ..pre })
                    &&& post.mode matches Mode::InternalPrompt(q)
                    &&& q.command_index == p.command_index
                    &&& q.input@ == popped(p.input@)
                },
                PromptKey::Type(c) => match flag_answer(seq![c], default) {
                    Some(force) => post == searching(pre) && is_internal_run(
                        action,
                        InternalCommandView::Init { force },
                    ),
                    None => {
                        &&& action is Idle
                        &&& post == (AppState { mode: post.mode, ..pre })
                        &&& post.mode matches Mode::InternalPrompt(q)
                        &&& q.command_index == p.command_index
                        &&& q.input@ == p.input@.push(c)
                    },
                },
                PromptKey::Submit => match flag_answer(trimmed(p.input@), default) {
                    Some(force) => post == searching(pre) && is_internal_run(
                        action,
                        InternalCommandView::Init { force },
                    ),
                    None => line_added(pre, ChatLineKind::Info, "Please enter y or n"@, post)
                        && action is Idle,
                },
                PromptKey::Ignored => post == pre && action is Idle,
            }
        },
        _ => post == searching(pre) && action is Idle,
    }
}

/// Whether the key closes the help overlay and does nothing else.
pub open spec fn closes_help(key: Key) -> bool {
    key.code is Esc || key.code == KeyCode::Char('?')
}

/// The transition of a key. While the help overlay is shown any key closes
/// it; all keys but Escape and `?` then act on the mode as if it had not been
/// shown.
pub open spec fn key_step(pre: AppState, key: Key, post: AppState, action: UiAction) -> bool {
    if pre.show_help && closes_help(key) {
        post == (AppState { show_help: false, ..pre }) && action is Idle
    } else {
        let base = AppState { show_help: false, ..pre };
        match pre.mode {
            Mode::Search => search_step(base, key, post, action),
            Mode::Prompt(_) => prompt_step(base, key, post, action),
            Mode::InternalPrompt(_) => internal_prompt_step(base, key, post, action),
        }
    }
}

// ---------------------------------------------------------------------------
// Helpers
// ---------------------------------------------------------------------------

fn concat3(a: &str, b: &str, c: &str) -> (out: String)
    ensures
        out@ == a@ + b@ + c@,
{
    let mut out = a.to_owned();
    out.append(b);
    out.append(c);
    out
}

fn clone_text(text: &Option<String>) -> (out: Option<String>)
    ensures
        text_of(out) == text_of(*text),
{
    match text {
        Some(t) => Some(t.clone()),
        None => None,
    }
}

fn classify_search_key(key: Key) -> (r: SearchKey)
    ensures
        r == search_key(key),
{
    match key.code {
        KeyCode::Char(c) => if c == '?' {
            SearchKey::Help
        } else if key.control && c == 'j' {
            SearchKey::Step { selection: 1, scroll: -1isize }
        } else if key.control && c == 'k' {
            SearchKey::Step { selection: -1isize, scroll: 1 }
        } else if key.control && c == 'c' {
            SearchKey::Quit
        } else if key.is_typing() {
            SearchKey::Insert(c)
        } else {
            SearchKey::Ignored
        },
        KeyCode::Tab => SearchKey::TogglePane,
        KeyCode::Esc => SearchKey::Cancel,
        KeyCode::Enter => SearchKey::Submit { return_to_tui: !key.alt },
        KeyCode::Left => SearchKey::Left,
        KeyCode::Right => SearchKey::Right,
        KeyCode::Home => SearchKey::Home,
        KeyCode::End => SearchKey::End,
        KeyCode::Up => SearchKey::Step { selection: -1isize, scroll: 1 },
        KeyCode::Down => SearchKey::Step { selection: 1, scroll: -1isize },
        KeyCode::PageUp => SearchKey::Step { selection: -10isize, scroll: 10 },
        KeyCode::PageDown => SearchKey::Step { selection: 10, scroll: -10isize },
        KeyCode::Backspace => SearchKey::Backspace,
        KeyCode::Delete => SearchKey::Delete,
        KeyCode::Other => SearchKey::Ignored,
    }
}

fn classify_prompt_key(key: Key) -> (r: PromptKey)
    ensures
        r == prompt_key(key),
{
    match key.code {
        KeyCode::Esc => PromptKey::Cancel,
        KeyCode::Backspace => PromptKey::Backspace,
        KeyCode::Char(c) => if key.is_typing() {
            PromptKey::Type(c)
        } else {
            PromptKey::Ignored
        },
        KeyCode::Enter => PromptKey::Submit,
        _ => PromptKey::Ignored,
    }
}

/// The selection after `direction` steps through `len` results.
pub fn step_selection(selected: usize, len: usize, direction: isize) -> (next: usize)
    ensures
        next == moved(selected, len as nat, direction as int),
        len > 0 ==> next < len,
{
    if len == 0 {
        return 0;
    }
    let n: i128 = len as i128;
    let raw: i128 = selected as i128 + direction as i128;
    if raw >= 0 {
        let m: u128 = (raw as u128) % (len as u128);
        m as usize
    } else {
        let a: u128 = (-raw) as u128;
        let m: u128 = a % (len as u128);
        proof {
            let q = (a as int) / (n as int);
            lemma_fundamental_div_mod(a as int, n as int);
            assert(a as int == (n as int) * q + m);
            if m == 0 {
                assert(raw as int == (-q) * (n as int) + 0) by (nonlinear_arith)
                    requires
                        a as int == (n as int) * q + m,
                        m == 0,
                        raw as int == -(a as int),
                ;
                lemma_fundamental_div_mod_converse(raw as int, n as int, -q, 0);
            } else {
                assert(raw as int == (-q - 1) * (n as int) + (n - m)) by (nonlinear_arith)
                    requires
                        a as int == (n as int) * q + m,
                        raw as int == -(a as int),
                ;
                lemma_fundamental_div_mod_converse(raw as int, n as int, -q - 1, n - m);
            }
        }
        if m == 0 {
            0
        } else {
            (len as u128 - m) as usize
        }
    }
}

/// Tests whether a prompt refers to a command and to parameters that exist.
pub fn prompt_is_fit(p: &PromptState, commands: &Vec<CommandEntry>) -> (r: bool)
    ensures
        r == prompt_fits(*p, commands@),
{
    if p.command_index >= commands.len() {
        return false;
    }
    if p.current_param >= p.pending_params.len() {
        return false;
    }
    let count = commands[p.command_index].params.len();
    let mut j: usize = 0;
    while j < p.pending_params.len()
        invariant
            j <= p.pending_params.len(),
            p.command_index < commands.len(),
            count == commands@[p.command_index as int].params@.len(),
            forall|k: int| 0 <= k < j ==> (#[trigger] p.pending_params@[k]) < count,
        decreases p.pending_params.len() - j,
    {
        if p.pending_params[j] >= count {
            return false;
        }
        j += 1;
    }
    true
}

struct Asked {
    is_flag: bool,
    name: String,
    default_value: Option<String>,
    required: bool,
    default_on: bool,
    token: String,
}

fn param_facts(param: &ParamSpec) -> (r: Asked)
    ensures
        r.is_flag == (param.kind is Flag),
        r.name@ == param.name@,
        text_of(r.default_value) == text_of(param.default_value),
        r.required == param.required,
        r.default_on == default_on(*param),
        r.token@ == param.token(),
{
    Asked {
        is_flag: match param.kind {
            ParamType::Flag => true,
            ParamType::Value => false,
        },
        name: param.name.clone(),
        default_value: clone_text(&param.default_value),
        required: param.required,
        default_on: match param.default_flag {
            Some(b) => b,
            None => false,
        },
        token: param.flag_token(),
    }
}

// ---------------------------------------------------------------------------
// The state
// ---------------------------------------------------------------------------

impl AppState {
    /// Whether the state is sound: the cursor stands inside the query, the
    /// session log is within its limit, and an open prompt refers to a command
    /// and to parameters that exist.
    pub open spec fn wf(self) -> bool {
        &&& self.query_cursor <= self.query@.len()
        &&& self.chat@.len() <= MAX_CHAT_LINES
        &&& match self.mode {
            Mode::Search => true,
            Mode::Prompt(p) => prompt_fits(p, self.commands@),
            Mode::InternalPrompt(p) => p.command_index < INTERNAL_COMMANDS,
        }
    }

    /// Tests whether the state is sound.
    pub fn is_well_formed(&self) -> (r: bool)
        ensures
            r == self.wf(),
    {
        if self.query_cursor > char_count(self.query.as_str()) {
            return false;
        }
        if self.chat.len() > MAX_CHAT_LINES {
            return false;
        }
        match &self.mode {
            Mode::Search => true,
            Mode::Prompt(p) => prompt_is_fit(p, &self.commands),
            Mode::InternalPrompt(p) => p.command_index < INTERNAL_COMMANDS,
        }
    }

    /// Whether the results are those of the query on the catalog.
    pub open spec fn consistent(self) -> bool {
        self.filtered@ == results_of(self, self.query@)
    }

    /// Appends a line to the session log.
    pub fn push_line(&mut self, kind: ChatLineKind, text: String)
        ensures
            line_added(*old(self), kind, text@, *final(self)),
            old(self).chat@.len() <= MAX_CHAT_LINES ==> final(self).chat@.len() <= MAX_CHAT_LINES,
    {
        let follow = match self.active_pane {
            ActivePane::Commands => true,
            ActivePane::Session => false,
        };
        let evicted = push_bounded(&mut self.chat, kind, text);
        let kept: usize = if follow {
            0
        } else {
            self.session_scroll
        };
        self.session_scroll = if kept >= evicted {
            kept - evicted
        } else {
            0
        };
    }

    /// Appends a notice to the session log.
    pub fn push_info(&mut self, text: String)
        ensures
            line_added(*old(self), ChatLineKind::Info, text@, *final(self)),
            old(self).chat@.len() <= MAX_CHAT_LINES ==> final(self).chat@.len() <= MAX_CHAT_LINES,
    {
        self.push_line(ChatLineKind::Info, text);
    }

    /// Appends a command line to the session log.
    pub fn push_command(&mut self, text: String)
        ensures
            line_added(*old(self), ChatLineKind::Command, text@, *final(self)),
            old(self).chat@.len() <= MAX_CHAT_LINES ==> final(self).chat@.len() <= MAX_CHAT_LINES,
    {
        self.push_line(ChatLineKind::Command, text);
    }

    /// Appends an error to the session log.
    pub fn push_error(&mut self, text: String)
        ensures
            line_added(*old(self), ChatLineKind::Stderr, text@, *final(self)),
            old(self).chat@.len() <= MAX_CHAT_LINES ==> final(self).chat@.len() <= MAX_CHAT_LINES,
    {
        self.push_line(ChatLineKind::Stderr, text);
    }

    /// Whether the query addresses the internal commands.
    pub fn is_internal_query(&self) -> (r: bool)
        ensures
            r == crate::search::is_internal(self.query@),
    {
        let chars = chars_of(self.query.as_str());
        crate::search::is_internal_chars(&chars)
    }

    /// The catalog entry that is selected.
    pub fn current_command_index(&self) -> (r: Option<usize>)
        ensures
            r == current_command(*self),
    {
        if self.selected < self.filtered.len() {
            match self.filtered[self.selected] {
                SearchItem::Command(i) => if i < self.commands.len() {
                    Some(i)
                } else {
                    None
                },
                SearchItem::Internal(_) => None,
            }
        } else {
            None
        }
    }

    /// The internal command that is selected.
    pub fn current_internal_index(&self) -> (r: Option<usize>)
        ensures
            r == current_internal(*self),
    {
        if self.selected < self.filtered.len() {
            match self.filtered[self.selected] {
                SearchItem::Internal(i) => if i < INTERNAL_COMMANDS {
                    Some(i)
                } else {
                    None
                },
                SearchItem::Command(_) => None,
            }
        } else {
            None
        }
    }

    /// Computes the results of the query anew and selects the first.
    pub fn refresh_filtered(&mut self)
        ensures
            refreshed(*old(self), *final(self)),
            final(self).consistent(),
    {
        self.filtered = find_results(
            &self.commands,
            self.query.as_str(),
            &self.provider_aliases,
            &self.usage_counts,
            self.ranking,
        );
        self.selected = 0;
    }

    /// Replaces the query and computes its results.
    fn set_query(&mut self, query: String, cursor: usize)
        ensures
            requeried(*old(self), query@, cursor, *final(self)),
            final(self).consistent(),
    {
        self.query = query;
        self.query_cursor = cursor;
        self.refresh_filtered();
    }

    /// Moves the selection, wrapping round at both ends.
    pub fn move_selection(&mut self, direction: isize)
        ensures
            *final(self) == (AppState {
                selected: moved(old(self).selected, old(self).filtered@.len(), direction as int) as usize,
                ..*old(self)
            }),
    {
        self.selected = step_selection(self.selected, self.filtered.len(), direction);
    }

    /// Moves the selection by a page.
    pub fn move_selection_by(&mut self, step: isize)
        ensures
            *final(self) == (AppState {
                selected: moved(old(self).selected, old(self).filtered@.len(), step as int) as usize,
                ..*old(self)
            }),
    {
        self.move_selection(step);
    }

    /// Scrolls the session log.
    pub fn scroll_session(&mut self, delta: isize)
        ensures
            *final(self) == (AppState {
                session_scroll: scrolled(
                    old(self).session_scroll,
                    old(self).chat@.len(),
                    delta as int,
                ) as usize,
                ..*old(self)
            }),
    {
        self.session_scroll = scroll_by(self.session_scroll, self.chat.len(), delta);
    }

    /// Fills the values into the template of the command and hands out the
    /// command line, or reports the placeholders that are left.
    pub fn build_run_request(&mut self, index: usize, values: Vec<(String, String)>, return_to_tui: bool) -> (action:
        UiAction)
        requires
            index < old(self).commands@.len(),
        ensures
            run_requested(
                *old(self),
                index,
                pair_views(values@),
                return_to_tui,
                *final(self),
                action,
            ),
            old(self).chat@.len() <= MAX_CHAT_LINES ==> final(self).chat@.len() <= MAX_CHAT_LINES,
            final(self).commands == old(self).commands,
            final(self).mode == old(self).mode,
            final(self).query_cursor <= final(self).query@.len() || final(self).query
                == old(self).query,
            final(self).query_cursor == 0 || final(self).query_cursor == old(self).query_cursor,
            old(self).consistent() ==> final(self).consistent(),
    {
        let line = render_template(self.commands[index].template.as_str(), &values);
        let chars = chars_of(line.as_str());
        let open = chars_of("{{");
        let close = chars_of("}}");
        if has_text(&chars, &open) && has_text(&chars, &close) {
            let message = concat3(
                "Command '",
                self.commands[index].name.as_str(),
                "' still has unresolved placeholders",
            );
            self.push_info(message);
            return UiAction::Idle;
        }
        let display_name = self.commands[index].name.clone();
        let working_dir = clone_text(&self.commands[index].working_dir);
        let usage_key = command_usage_key(&self.commands[index]);
        let empty = String::new();
        assert(empty@ =~= Seq::<char>::empty());
        self.set_query(empty, 0);
        UiAction::Run(
            RunRequest { display_name, command_line: line, working_dir, usage_key, return_to_tui },
        )
    }

    /// Starts the run of the selected catalog entry: at once where no
    /// parameter has to be asked for, else with the first question.
    pub fn prepare_selected_command(&mut self, return_to_tui: bool) -> (action: UiAction)
        requires
            old(self).wf(),
        ensures
            final(self).wf(),
            command_submitted(*old(self), return_to_tui, *final(self), action),
            old(self).consistent() ==> final(self).consistent(),
    {
        let index = match self.current_command_index() {
            Some(index) => index,
            None => {
                self.push_info("No command selected".to_owned());
                return UiAction::Idle;
            },
        };
        let ghost params = self.commands@[index as int].params@;
        let count = self.commands[index].params.len();
        let mut values: Vec<(String, String)> = Vec::new();
        let mut pending: Vec<usize> = Vec::new();
        let mut i: usize = 0;
        assert(pair_views(values@) =~= initial_values(params.take(0)));
        assert(pending@ =~= pending_params(params.take(0)));
        while i < count
            invariant
                i <= count,
                index < self.commands@.len(),
                count == params.len(),
                params == self.commands@[index as int].params@,
                pair_views(values@) == initial_values(params.take(i as int)),
                pending@ == pending_params(params.take(i as int)),
            decreases count - i,
        {
            let param = &self.commands[index].params[i];
            proof {
                let next = params.take(i + 1);
                assert(next.drop_last() == params.take(i as int));
                assert(next.last() == params[i as int]);
            }
            match param.kind {
                ParamType::Value => {
                    match &param.value_value {
                        Some(v) => {
                            assign(&mut values, param.name.clone(), v.clone());
                        },
                        None => {
                            if param.requires_input() {
                                pending.push(i);
                            } else {
                                match &param.default_value {
                                    Some(d) => {
                                        assign(&mut values, param.name.clone(), d.clone());
                                    },
                                    None => {},
                                }
                            }
                        },
                    }
                },
                ParamType::Flag => {
                    match param.value_flag {
                        Some(on) => {
                            let token = if on {
                                param.flag_token()
                            } else {
                                String::new()
                            };
                            assert(token@ =~= flag_text(*param, on));
                            assign(&mut values, param.name.clone(), token);
                        },
                        None => {
                            pending.push(i);
                        },
                    }
                },
            }
            i += 1;
        }
        assert(params.take(count as int) == params);
        if pending.len() == 0 {
            return self.build_run_request(index, values, return_to_tui);
        }
        proof {
            lemma_pending_in_range(params);
        }
        let input = String::new();
        assert(input@ =~= Seq::<char>::empty());
        self.mode = Mode::Prompt(
            PromptState {
                command_index: index,
                pending_params: pending,
                current_param: 0,
                input,
                values,
                return_to_tui,
            },
        );
        UiAction::Idle
    }

    /// Resolves Enter on an internal query.
    pub fn prepare_selected_internal_command(&mut self) -> (action: UiAction)
        requires
            old(self).wf(),
        ensures
            final(self).wf(),
            internal_submitted(*old(self), *final(self), action),
            old(self).consistent() ==> final(self).consistent(),
    {
        let chars = chars_of(self.query.as_str());
        let text = trim_chars(&chars);
        match parse_internal_chars(&text) {
            Some(InternalCommand::Reload) => {
                return UiAction::RunInternal(InternalRunRequest { command: InternalCommand::Reload });
            },
            Some(InternalCommand::Init { force }) => {
                let text_line = string_of(&text);
                if query_has_force_flag(text_line.as_str()) {
                    return UiAction::RunInternal(
                        InternalRunRequest { command: InternalCommand::Init { force } },
                    );
                }
            },
            _ => {},
        }
        let index = match self.current_internal_index() {
            Some(index) => index,
            None => {
                self.push_info("Unknown internal command. Available: /reload, /init".to_owned());
                return UiAction::Idle;
            },
        };
        let defs = crate::search::internal_commands();
        match defs[index].kind {
            InternalCommandKind::Reload => UiAction::RunInternal(
                InternalRunRequest { command: InternalCommand::Reload },
            ),
            InternalCommandKind::Init => {
                let input = String::new();
                assert(input@ =~= Seq::<char>::empty());
                self.mode = Mode::InternalPrompt(InternalPromptState { command_index: index, input });
                UiAction::Idle
            },
        }
    }

    /// Handles a key in search mode.
    pub fn on_search_key(&mut self, key: Key) -> (action: UiAction)
        requires
            old(self).wf(),
        ensures
            final(self).wf(),
            search_step(*old(self), key, *final(self), action),
            old(self).consistent() ==> final(self).consistent(),
    {
        match classify_search_key(key) {
            SearchKey::Help => {
                self.show_help = true;
                UiAction::Idle
            },
            SearchKey::TogglePane => {
                self.active_pane = match self.active_pane {
                    ActivePane::Commands => ActivePane::Session,
                    ActivePane::Session => ActivePane::Commands,
                };
                UiAction::Idle
            },
            SearchKey::Cancel => {
                if char_count(self.query.as_str()) == 0 {
                    UiAction::Quit
                } else {
                    self.active_pane = ActivePane::Commands;
                    let empty = String::new();
                    assert(empty@ =~= Seq::<char>::empty());
                    self.set_query(empty, 0);
                    UiAction::Idle
                }
            },
            SearchKey::Submit { return_to_tui } => {
                match self.active_pane {
                    ActivePane::Session => {
                        return UiAction::Idle;
                    },
                    ActivePane::Commands => {},
                }
                if self.is_internal_query() {
                    self.prepare_selected_internal_command()
                } else {
                    self.prepare_selected_command(return_to_tui)
                }
            },
            SearchKey::Left => {
                if self.query_cursor > 0 {
                    self.query_cursor -= 1;
                }
                self.active_pane = ActivePane::Commands;
                UiAction::Idle
            },
            SearchKey::Right => {
                if self.query_cursor < char_count(self.query.as_str()) {
                    self.query_cursor += 1;
                }
                self.active_pane = ActivePane::Commands;
                UiAction::Idle
            },
            SearchKey::Home => {
                self.query_cursor = 0;
                self.active_pane = ActivePane::Commands;
                UiAction::Idle
            },
            SearchKey::End => {
                self.query_cursor = char_count(self.query.as_str());
                self.active_pane = ActivePane::Commands;
                UiAction::Idle
            },
            SearchKey::Step { selection, scroll } => {
                match self.active_pane {
                    ActivePane::Session => self.scroll_session(scroll),
                    ActivePane::Commands => self.move_selection(selection),
                }
                UiAction::Idle
            },
            SearchKey::Quit => UiAction::Quit,
            SearchKey::Backspace => {
                self.active_pane = ActivePane::Commands;
                if self.query_cursor > 0 {
                    let mut query = self.query.clone();
                    if remove_char_at(&mut query, self.query_cursor - 1) {
                        let cursor = self.query_cursor - 1;
                        self.set_query(query, cursor);
                    }
                }
                UiAction::Idle
            },
            SearchKey::Delete => {
                self.active_pane = ActivePane::Commands;
                let mut query = self.query.clone();
                if remove_char_at(&mut query, self.query_cursor) {
                    let cursor = self.query_cursor;
                    self.set_query(query, cursor);
                }
                UiAction::Idle
            },
            SearchKey::Insert(c) => {
                self.active_pane = ActivePane::Commands;
                let mut query = self.query.clone();
                insert_char_at(&mut query, self.query_cursor, c);
                let count = char_count(query.as_str());
                let cursor = self.query_cursor + 1;
                self.set_query(query, cursor);
                UiAction::Idle
            },
            SearchKey::Ignored => UiAction::Idle,
        }
    }

    /// Moves on once the current parameter has its value.
    fn advance(&mut self, prompt: PromptState, Ghost(pre): Ghost<AppState>) -> (action: UiAction)
        requires
            *old(self) == searching(pre),
            pre.wf(),
            prompt_fits(prompt, pre.commands@),
            pre.mode matches Mode::Prompt(p) && p.command_index == prompt.command_index
                && p.pending_params@ == prompt.pending_params@ && p.current_param
                == prompt.current_param && p.return_to_tui == prompt.return_to_tui,
        ensures
            final(self).wf(),
            answered(pre, pre.mode->Prompt_0, pair_views(prompt.values@), *final(self), action),
            pre.consistent() ==> final(self).consistent(),
    {
        let mut prompt = prompt;
        let total = prompt.pending_params.len();
        if prompt.current_param + 1 >= total {
            self.build_run_request(prompt.command_index, prompt.values, prompt.return_to_tui)
        } else {
            prompt.current_param += 1;
            prompt.input = String::new();
            assert(prompt.input@ =~= Seq::<char>::empty());
            self.mode = Mode::Prompt(prompt);
            UiAction::Idle
        }
    }

    /// Handles a key while a parameter is asked for.
    pub fn on_prompt_key(&mut self, key: Key) -> (action: UiAction)
        requires
            old(self).wf(),
        ensures
            final(self).wf(),
            prompt_step(*old(self), key, *final(self), action),
            old(self).consistent() ==> final(self).consistent(),
    {
        let ghost pre = *self;
        let mut taken = Mode::Search;
        core::mem::swap(&mut self.mode, &mut taken);
        let mut prompt = match taken {
            Mode::Prompt(prompt) => prompt,
            _ => {
                return UiAction::Idle;
            },
        };
        assert(*self == searching(pre));
        let ghost opened = prompt;
        let slot = prompt.pending_params[prompt.current_param];
        let facts = param_facts(&self.commands[prompt.command_index].params[slot]);
        let ghost param = asked(pre, opened);
        let ghost values = pair_views(opened.values@);
        match classify_prompt_key(key) {
            PromptKey::Cancel => {
                self.push_info("Parameter entry canceled".to_owned());
                UiAction::Idle
            },
            PromptKey::Backspace => {
                pop_char(&mut prompt.input);
                self.mode = Mode::Prompt(prompt);
                UiAction::Idle
            },
            PromptKey::Type(c) => {
                let mut typed: Vec<char> = Vec::new();
                typed.push(c);
                assert(typed@ =~= seq![c]);
                if facts.is_flag {
                    match flag_answer_of(&typed, facts.default_on) {
                        Some(on) => {
                            let token = if on {
                                facts.token
                            } else {
                                String::new()
                            };
                            assert(token@ =~= flag_text(param, on));
                            assign(&mut prompt.values, facts.name, token);
                            return self.advance(prompt, Ghost(pre));
                        },
                        None => {},
                    }
                }
                prompt.input.push(c);
                self.mode = Mode::Prompt(prompt);
                UiAction::Idle
            },
            PromptKey::Submit => {
                let raw = chars_of(prompt.input.as_str());
                let input = trim_chars(&raw);
                if facts.is_flag {
                    match flag_answer_of(&input, facts.default_on) {
                        Some(on) => {
                            let token = if on {
                                facts.token
                            } else {
                                String::new()
                            };
                            assert(token@ =~= flag_text(param, on));
                            assign(&mut prompt.values, facts.name, token);
                            self.advance(prompt, Ghost(pre))
                        },
                        None => {
                            self.mode = Mode::Prompt(prompt);
                            self.push_info("Please enter y or n".to_owned());
                            UiAction::Idle
                        },
                    }
                } else if input.len() > 0 {
                    assign(&mut prompt.values, facts.name, string_of(&input));
                    self.advance(prompt, Ghost(pre))
                } else {
                    match facts.default_value {
                        Some(d) => {
                            if char_count(d.as_str()) > 0 {
                                assign(&mut prompt.values, facts.name, d);
                            }
                            self.advance(prompt, Ghost(pre))
                        },
                        None => {
                            if facts.required {
                                let message = concat3("'", facts.name.as_str(), "' is required");
                                self.mode = Mode::Prompt(prompt);
                                self.push_info(message);
                                UiAction::Idle
                            } else {
                                self.advance(prompt, Ghost(pre))
                            }
                        },
                    }
                }
            },
            PromptKey::Ignored => {
                self.mode = Mode::Prompt(prompt);
                UiAction::Idle
            },
        }
    }

    /// Handles a key while an internal command asks whether to force.
    pub fn on_internal_prompt_key(&mut self, key: Key) -> (action: UiAction)
        requires
            old(self).wf(),
        ensures
            final(self).wf(),
            internal_prompt_step(*old(self), key, *final(self), action),
            old(self).consistent() ==> final(self).consistent(),
    {
        let ghost pre = *self;
        let mut taken = Mode::Search;
        core::mem::swap(&mut self.mode, &mut taken);
        let mut prompt = match taken {
            Mode::InternalPrompt(prompt) => prompt,
            _ => {
                return UiAction::Idle;
            },
        };
        assert(*self == searching(pre));
        let defs = crate::search::internal_commands();
        let default = defs[prompt.command_index].default_force;
        match classify_prompt_key(key) {
            PromptKey::Cancel => {
                self.push_info("Internal command canceled".to_owned());
                UiAction::Idle
            },
            PromptKey::Backspace => {
                pop_char(&mut prompt.input);
                self.mode = Mode::InternalPrompt(prompt);
                UiAction::Idle
            },
            PromptKey::Type(c) => {
                let mut typed: Vec<char> = Vec::new();
                typed.push(c);
                assert(typed@ =~= seq![c]);
                match flag_answer_of(&typed, default) {
                    Some(force) => UiAction::RunInternal(
                        InternalRunRequest { command: InternalCommand::Init { force } },
                    ),
                    None => {
                        prompt.input.push(c);
                        self.mode = Mode::InternalPrompt(prompt);
                        UiAction::Idle
                    },
                }
            },
            PromptKey::Submit => {
                let raw = chars_of(prompt.input.as_str());
                let input = trim_chars(&raw);
                match flag_answer_of(&input, default) {
                    Some(force) => UiAction::RunInternal(
                        InternalRunRequest { command: InternalCommand::Init { force } },
                    ),
                    None => {
                        self.mode = Mode::InternalPrompt(prompt);
                        self.push_info("Please enter y or n".to_owned());
                        UiAction::Idle
                    },
                }
            },
            PromptKey::Ignored => {
                self.mode = Mode::InternalPrompt(prompt);
                UiAction::Idle
            },
        }
    }

    /// Handles a key: closes the help overlay where it is shown, then lets
    /// the active mode act on the key.
    pub fn on_key(&mut self, key: Key) -> (action: UiAction)
        requires
            old(self).wf(),
        ensures
            final(self).wf(),
            key_step(*old(self), key, *final(self), action),
            old(self).consistent() ==> final(self).consistent(),
    {
        if self.show_help {
            self.show_help = false;
            match key.code {
                KeyCode::Esc => {
                    return UiAction::Idle;
                },
                KeyCode::Char(c) => {
                    if c == '?' {
                        return UiAction::Idle;
                    }
                },
                _ => {},
            }
        }
        let which: u8 = match &self.mode {
            Mode::Search => 0,
            Mode::Prompt(_) => 1,
            Mode::InternalPrompt(_) => 2,
        };
        if which == 0 {
            self.on_search_key(key)
        } else if which == 1 {
            self.on_prompt_key(key)
        } else {
            self.on_internal_prompt_key(key)
        }
    }
}

} // verus!
