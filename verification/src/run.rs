//! The life of the state around a run: how it starts, what a finished run
//! or a finished internal command leaves in it, and what a reload replaces.

use crate::app::{
    line_added, refreshed, results_of, ActivePane, AppState, Mode, ReloadPayload, RunRequest,
    RuntimeContext, SPINNER_FRAMES,
};
use crate::input::InternalCommand;
use crate::model::{assigned, by_name, sort_by_name, CommandEntry};
use crate::rank::text_of;
use crate::search::{
    bump_usage, count_views, next_count, usage_boost,
    usage_boost_of, usage_count, usage_count_of, usage_key, usage_key_chars, RankingSettings,
    };
use crate::session::{line_views, log_pushed, ChatLineKind, MAX_CHAT_LINES};
use crate::text::{
    append_chars, chars_of, decimal_text, push_decimal, push_signed_decimal, signed_decimal_text,
    string_of,
};
use vstd::prelude::*;
use vstd::string::StringExecFns;

verus! {

/// The exit code that stands for an interrupted run.
pub const INTERRUPTED_EXIT_CODE: i32 = 130;

/// The line that says how many commands were loaded.
pub open spec fn loaded_line(count: nat) -> Seq<char> {
    "Loaded "@ + decimal_text(count) + " commands"@
}

/// The line that says how many commands a reload brought.
pub open spec fn reloaded_line(count: nat) -> Seq<char> {
    "Reloaded "@ + decimal_text(count) + " commands"@
}

/// The line that names the configuration file in use.
pub open spec fn config_line(path: Option<Seq<char>>) -> Seq<char> {
    match path {
        Some(p) => "Config: "@ + p,
        None => "Config: none (providers only or defaults)"@,
    }
}

fn counted_line(head: &str, count: usize, tail: &str) -> (out: String)
    ensures
        out@ == head@ + decimal_text(count as nat) + tail@,
{
    let mut chars = chars_of(head);
    push_decimal(&mut chars, count as u64);
    let rest = chars_of(tail);
    append_chars(&mut chars, &rest);
    string_of(&chars)
}

fn joined_line(head: &str, tail: &str) -> (out: String)
    ensures
        out@ == head@ + tail@,
{
    let mut out = head.to_owned();
    out.append(tail);
    out
}

/// How a run ended.
#[derive(Debug, Clone)]
pub enum RunOutcome {
    /// The command ran to its end with this exit code.
    Exited(i32),
    /// The user interrupted the run.
    Interrupted,
    /// The run failed; `started` says whether the command had been started.
    Failed { message: String, started: bool },
}

/// Which way a command line is to be run.
#[derive(Clone, Copy, Debug, PartialEq, Eq)]
pub enum RunPlan {
    /// Inside the interface, with its output streamed into the session log.
    Streamed,
    /// In the shell, after the interface has been torn down for good.
    Inherited,
}

/// What an internal command brought back.
pub enum InternalTaskResult {
    Reloaded(ReloadPayload),
    Inited { path: String, payload: ReloadPayload },
    Error(String),
    /// The worker went away without a result.
    WorkerLost,
}

/// The line that tells how a streamed run ended.
pub open spec fn outcome_line(outcome: RunOutcome) -> (ChatLineKind, Seq<char>) {
    match outcome {
        RunOutcome::Exited(code) => (
            ChatLineKind::Info,
            "exit code: "@ + signed_decimal_text(code as int),
        ),
        RunOutcome::Interrupted => (ChatLineKind::Info, "Interrupted by user (Escape)"@),
        RunOutcome::Failed { message, started } => (
            ChatLineKind::Stderr,
            "execution failed: "@ + message@,
        ),
    }
}

/// Whether usage is counted for a run that ended this way: for every run
/// that was started.
pub open spec fn counts_as_run(outcome: RunOutcome) -> bool {
    match outcome {
        RunOutcome::Failed { message, started } => started,
        _ => true,
    }
}

/// `post` is `pre` with one more run counted under `key`.
pub open spec fn usage_recorded(pre: AppState, key: Seq<char>, post: AppState) -> bool {
    &&& post == (AppState { usage_counts: post.usage_counts, ..pre })
    &&& count_views(post.usage_counts@) == assigned(
        count_views(pre.usage_counts@),
        key,
        next_count(usage_count(pre.usage_counts@, key)),
    )
}

/// `pre` with the loading indicator switched on under `label`.
pub open spec fn loading_started(pre: AppState, label: Seq<char>, post: AppState) -> bool {
    &&& post == (AppState {
        is_loading: true,
        loading_label: post.loading_label,
        spinner_index: 0,
        ..pre
    })
    &&& text_of(post.loading_label) == Some(label)
}

/// `pre` with the loading indicator switched off.
pub open spec fn loading_stopped(pre: AppState) -> AppState {
    AppState { is_loading: false, loading_label: None, ..pre }
}

/// `pre` with the loading indicator moved on by one frame, where it is on.
pub open spec fn ticked(pre: AppState) -> AppState {
    if pre.is_loading {
        AppState { spinner_index: ((pre.spinner_index + 1) % (SPINNER_FRAMES as int)) as usize, ..pre }
    } else {
        pre
    }
}

/// The frame of the loading indicator with the given number.
pub open spec fn spinner_text(frame: int) -> Seq<char> {
    if frame == 0 {
        "⠋"@
    } else if frame == 1 {
        "⠙"@
    } else if frame == 2 {
        "⠹"@
    } else if frame == 3 {
        "⠸"@
    } else if frame == 4 {
        "⠼"@
    } else if frame == 5 {
        "⠴"@
    } else if frame == 6 {
        "⠦"@
    } else if frame == 7 {
        "⠧"@
    } else if frame == 8 {
        "⠇"@
    } else {
        "⠏"@
    }
}

/// `post` is `pre` with the catalog and settings of `payload`, the results
/// computed anew, and no prompt left open on the catalog that was replaced.
pub open spec fn reloaded(pre: AppState, payload: ReloadPayload, post: AppState) -> bool {
    let base = AppState {
        commands: payload.commands,
        config_path: payload.config_path,
        provider_aliases: payload.provider_aliases,
        ranking: payload.ranking,
        mode: if pre.mode is Prompt {
            Mode::Search
        } else {
            pre.mode
        },
        ..pre
    };
    refreshed(base, post)
}

impl AppState {
    /// The state at the start: the catalog ordered by name, an empty query
    /// with its results, and two lines in the session log.
    pub fn new(
        commands: Vec<CommandEntry>,
        config_path: Option<String>,
        provider_aliases: Vec<(String, String)>,
        ranking: RankingSettings,
        runtime: RuntimeContext,
        usage_counts: Vec<(String, u64)>,
    ) -> (app: AppState)
        ensures
            app.wf(),
            app.consistent(),
            app.commands@ == by_name(commands@),
            app.query@ == Seq::<char>::empty(),
            app.query_cursor == 0,
            app.selected == 0,
            app.mode is Search,
            app.config_path == config_path,
            app.provider_aliases == provider_aliases,
            app.ranking == ranking,
            app.usage_counts == usage_counts,
            app.runtime == runtime,
            !app.is_loading,
            app.loading_label is None,
            app.spinner_index == 0,
            !app.show_help,
            app.active_pane is Commands,
            app.session_scroll == 0,
            line_views(app.chat@) == seq![
                (ChatLineKind::Info, loaded_line(commands@.len())),
                (ChatLineKind::Info, config_line(text_of(config_path))),
            ],
    {
        let count = commands.len();
        let sorted = sort_by_name(commands);
        let query = String::new();
        assert(query@ =~= Seq::<char>::empty());
        let mut app = AppState {
            commands: sorted,
            filtered: Vec::new(),
            selected: 0,
            query,
            query_cursor: 0,
            mode: Mode::Search,
            chat: Vec::new(),
            config_path,
            provider_aliases,
            ranking,
            usage_counts,
            is_loading: false,
            loading_label: None,
            spinner_index: 0,
            show_help: false,
            runtime,
            active_pane: ActivePane::Commands,
            session_scroll: 0,
        };
        app.refresh_filtered();
        assert(line_views(app.chat@) =~= Seq::empty());
        app.push_info(counted_line("Loaded ", count, " commands"));
        let line = match &app.config_path {
            Some(path) => joined_line("Config: ", path.as_str()),
            None => "Config: none (providers only or defaults)".to_owned(),
        };
        app.push_info(line);
        assert(line_views(app.chat@) =~= seq![
            (ChatLineKind::Info, loaded_line(count as nat)),
            (ChatLineKind::Info, config_line(text_of(config_path))),
        ]);
        app
    }

    /// Switches the loading indicator on.
    pub fn start_loading(&mut self, label: &str)
        ensures
            loading_started(*old(self), label@, *final(self)),
    {
        self.is_loading = true;
        self.loading_label = Some(label.to_owned());
        self.spinner_index = 0;
    }

    /// Switches the loading indicator off.
    pub fn stop_loading(&mut self)
        ensures
            *final(self) == loading_stopped(*old(self)),
    {
        self.is_loading = false;
        self.loading_label = None;
    }

    /// Moves the loading indicator on by one frame.
    pub fn tick_loading(&mut self)
        ensures
            *final(self) == ticked(*old(self)),
    {
        if self.is_loading {
            self.spinner_index = (self.spinner_index % SPINNER_FRAMES + 1) % SPINNER_FRAMES;
        }
    }

    /// The frame of the loading indicator that is shown.
    pub fn spinner_frame(&self) -> (frame: &'static str)
        ensures
            frame@ == spinner_text((self.spinner_index % SPINNER_FRAMES) as int),
    {
        let n = self.spinner_index % SPINNER_FRAMES;
        if n == 0 {
            "⠋"
        } else if n == 1 {
            "⠙"
        } else if n == 2 {
            "⠹"
        } else if n == 3 {
            "⠸"
        } else if n == 4 {
            "⠼"
        } else if n == 5 {
            "⠴"
        } else if n == 6 {
            "⠦"
        } else if n == 7 {
            "⠧"
        } else if n == 8 {
            "⠇"
        } else {
            "⠏"
        }
    }

    /// Counts one more run under `key`.
    pub fn record_usage(&mut self, key: &str)
        ensures
            usage_recorded(*old(self), key@, *final(self)),
    {
        bump_usage(&mut self.usage_counts, key.to_owned());
    }

    /// The points that usage adds to the score of `command`.
    pub fn usage_boost_for_command(&self, command: &CommandEntry) -> (boost: i64)
        ensures
            boost == usage_boost(self.ranking, usage_count(self.usage_counts@, usage_key(*command))),
    {
        let key = usage_key_chars(command);
        usage_boost_of(self.ranking, usage_count_of(&self.usage_counts, &key))
    }

    /// Takes over a reloaded catalog with its aliases and settings.
    pub fn apply_reload_payload(&mut self, payload: ReloadPayload)
        ensures
            old(self).wf() ==> final(self).wf(),
            final(self).consistent(),
            reloaded(*old(self), payload, *final(self)),
    {
        self.commands = payload.commands;
        self.config_path = payload.config_path;
        self.provider_aliases = payload.provider_aliases;
        self.ranking = payload.ranking;
        let stale = match &self.mode {
            Mode::Prompt(_) => true,
            _ => false,
        };
        if stale {
            self.mode = Mode::Search;
        }
        self.refresh_filtered();
    }
}

/// A catalog as a reload hands it over: ordered by lowercase name.
pub fn make_reload_payload(
    commands: Vec<CommandEntry>,
    config_path: Option<String>,
    provider_aliases: Vec<(String, String)>,
    ranking: RankingSettings,
) -> (payload: ReloadPayload)
    ensures
        payload.commands@ == by_name(commands@),
        payload.config_path == config_path,
        payload.provider_aliases == provider_aliases,
        payload.ranking == ranking,
{
    ReloadPayload { commands: sort_by_name(commands), config_path, provider_aliases, ranking }
}


// ---------------------------------------------------------------------------
// Several lines at once
// ---------------------------------------------------------------------------

/// The log after the lines of `added`, pushed one after the other.
pub open spec fn logs_pushed(
    lines: Seq<(ChatLineKind, Seq<char>)>,
    added: Seq<(ChatLineKind, Seq<char>)>,
) -> Seq<(ChatLineKind, Seq<char>)>
    decreases added.len(),
{
    if added.len() == 0 {
        lines
    } else {
        logs_pushed(log_pushed(lines, added[0].0, added[0].1), added.drop_first())
    }
}

/// The length of a log of `len` lines after one more.
pub open spec fn len_after_push(len: nat) -> nat {
    if len + 1 > MAX_CHAT_LINES {
        MAX_CHAT_LINES as nat
    } else {
        len + 1
    }
}

/// The scroll offset after `count` more lines.
pub open spec fn scroll_after_pushes(scroll: usize, len: nat, follow: bool, count: nat) -> usize
    decreases count,
{
    if count == 0 {
        scroll
    } else {
        scroll_after_pushes(
            crate::session::scroll_after_push(scroll, len, follow),
            len_after_push(len),
            follow,
            (count - 1) as nat,
        )
    }
}

/// `post` is `pre` with the lines of `added` in the session log.
pub open spec fn lines_added(pre: AppState, added: Seq<(ChatLineKind, Seq<char>)>, post: AppState) -> bool {
    &&& post == (AppState { chat: post.chat, session_scroll: post.session_scroll, ..pre })
    &&& line_views(post.chat@) == logs_pushed(line_views(pre.chat@), added)
    &&& post.session_scroll == scroll_after_pushes(
        pre.session_scroll,
        pre.chat@.len(),
        pre.active_pane is Commands,
        added.len(),
    )
}

/// One line and then more lines are all these lines at once.
pub proof fn lemma_lines_added_step(
    a: AppState,
    kind: ChatLineKind,
    text: Seq<char>,
    b: AppState,
    rest: Seq<(ChatLineKind, Seq<char>)>,
    c: AppState,
)
    requires
        line_added(a, kind, text, b),
        lines_added(b, rest, c),
    ensures
        lines_added(a, seq![(kind, text)] + rest, c),
{
    let all = seq![(kind, text)] + rest;
    assert(all[0] == (kind, text));
    assert(all.drop_first() =~= rest);
    assert(line_views(b.chat@).len() == len_after_push(a.chat@.len()));
    assert(line_views(a.chat@).len() == a.chat@.len());
    assert(line_views(b.chat@).len() == b.chat@.len());
}

// ---------------------------------------------------------------------------
// Runs
// ---------------------------------------------------------------------------

/// The state when a run starts. A run in the shell only leaves the mode
/// at search; a streamed run logs the command line and the working
/// directory, where there is one, and switches the loading indicator on.
pub open spec fn run_begun(pre: AppState, request: RunRequest, post: AppState, plan: RunPlan) -> bool {
    let base = AppState { mode: Mode::Search, ..pre };
    if !request.return_to_tui {
        post == base && plan is Inherited
    } else {
        let lines = match request.working_dir {
            Some(dir) => seq![
                (ChatLineKind::Command, request.command_line@),
                (ChatLineKind::Info, "working directory: "@ + dir@),
            ],
            None => seq![(ChatLineKind::Command, request.command_line@)],
        };
        &&& plan is Streamed
        &&& post.is_loading
        &&& post.spinner_index == 0
        &&& text_of(post.loading_label) == Some(request.display_name@)
        &&& lines_added(
            AppState {
                is_loading: true,
                spinner_index: 0,
                loading_label: post.loading_label,
                ..base
            },
            lines,
            post,
        )
    }
}

/// The state when a streamed run has ended: one line tells how, the loading
/// indicator is off, and the run is counted where the command was started.
pub open spec fn run_finished(pre: AppState, request: RunRequest, outcome: RunOutcome, post: AppState) -> bool {
    let line = outcome_line(outcome);
    let base = AppState { usage_counts: post.usage_counts, ..loading_stopped(pre) };
    &&& line_added(base, line.0, line.1, post)
    &&& if counts_as_run(outcome) {
        count_views(post.usage_counts@) == assigned(
            count_views(pre.usage_counts@),
            request.usage_key@,
            next_count(usage_count(pre.usage_counts@, request.usage_key@)),
        )
    } else {
        post.usage_counts == pre.usage_counts
    }
}

impl AppState {
    /// Prepares the state for the run of `request` and says which way to run it.
    pub fn begin_run(&mut self, request: &RunRequest) -> (plan: RunPlan)
        ensures
            run_begun(*old(self), *request, *final(self), plan),
            old(self).chat@.len() <= MAX_CHAT_LINES ==> final(self).chat@.len() <= MAX_CHAT_LINES,
    {
        self.mode = Mode::Search;
        if !request.return_to_tui {
            return RunPlan::Inherited;
        }
        self.start_loading(request.display_name.as_str());
        let ghost s0 = *self;
        self.push_command(request.command_line.clone());
        let ghost s1 = *self;
        match &request.working_dir {
            Some(dir) => {
                self.push_info(joined_line("working directory: ", dir.as_str()));
                proof {
                    let s2 = *self;
                    let l1 = (ChatLineKind::Command, request.command_line@);
                    let l2 = (ChatLineKind::Info, "working directory: "@ + dir@);
                    assert(lines_added(s2, Seq::empty(), s2));
                    lemma_lines_added_step(s1, l2.0, l2.1, s2, Seq::empty(), s2);
                    lemma_lines_added_step(s0, l1.0, l1.1, s1, seq![l2] + Seq::empty(), s2);
                    assert(seq![l1] + (seq![l2] + Seq::empty()) =~= seq![l1, l2]);
                }
            },
            None => {
                proof {
                    let l1 = (ChatLineKind::Command, request.command_line@);
                    assert(lines_added(s1, Seq::empty(), s1));
                    lemma_lines_added_step(s0, l1.0, l1.1, s1, Seq::empty(), s1);
                    assert(seq![l1] + Seq::empty() =~= seq![l1]);
                }
            },
        }
        RunPlan::Streamed
    }

    /// Records how a streamed run ended.
    pub fn finish_run(&mut self, request: &RunRequest, outcome: RunOutcome)
        ensures
            run_finished(*old(self), *request, outcome, *final(self)),
            old(self).chat@.len() <= MAX_CHAT_LINES ==> final(self).chat@.len() <= MAX_CHAT_LINES,
    {
        let counts = match &outcome {
            RunOutcome::Failed { message, started } => *started,
            _ => true,
        };
        if counts {
            self.record_usage(request.usage_key.as_str());
        }
        self.stop_loading();
        match outcome {
            RunOutcome::Exited(code) => {
                let mut chars = chars_of("exit code: ");
                push_signed_decimal(&mut chars, code);
                self.push_info(string_of(&chars));
            },
            RunOutcome::Interrupted => {
                self.push_info("Interrupted by user (Escape)".to_owned());
            },
            RunOutcome::Failed { message, started } => {
                self.push_error(joined_line("execution failed: ", message.as_str()));
            },
        }
    }

    /// Records a run that was handed to the shell: it is counted where the
    /// command was started.
    pub fn finish_inherited_run(&mut self, request: &RunRequest, started: bool)
        ensures
            started ==> usage_recorded(*old(self), request.usage_key@, *final(self)),
            !started ==> *final(self) == *old(self),
    {
        if started {
            self.record_usage(request.usage_key.as_str());
        }
    }
}

/// What is printed before a command runs in the shell: an empty line, the
/// name, the working directory where there is one, the command line and an
/// empty line.
pub open spec fn shell_banner(request: RunRequest) -> Seq<Seq<char>> {
    match request.working_dir {
        Some(dir) => seq![
            Seq::empty(),
            "fzc: "@ + request.display_name@,
            "working directory: "@ + dir@,
            "$ "@ + request.command_line@,
            Seq::empty(),
        ],
        None => seq![
            Seq::empty(),
            "fzc: "@ + request.display_name@,
            "$ "@ + request.command_line@,
            Seq::empty(),
        ],
    }
}

/// What is printed before a command runs in the shell.
pub fn shell_banner_lines(request: &RunRequest) -> (lines: Vec<String>)
    ensures
        crate::text::views(lines@) == shell_banner(*request),
{
    let mut lines: Vec<String> = Vec::new();
    lines.push(String::new());
    lines.push(joined_line("fzc: ", request.display_name.as_str()));
    match &request.working_dir {
        Some(dir) => {
            lines.push(joined_line("working directory: ", dir.as_str()));
        },
        None => {},
    }
    lines.push(joined_line("$ ", request.command_line.as_str()));
    lines.push(String::new());
    assert(crate::text::views(lines@) =~= shell_banner(*request));
    lines
}

/// What is printed once a command has run in the shell.
pub open spec fn shell_result(outcome: Result<i32, String>) -> Seq<char> {
    match outcome {
        Ok(code) => "exit code: "@ + signed_decimal_text(code as int),
        Err(message) => "execution failed: "@ + message@,
    }
}

/// What is printed once a command has run in the shell.
pub fn shell_result_line(outcome: &Result<i32, String>) -> (line: String)
    ensures
        line@ == shell_result(*outcome),
{
    match outcome {
        Ok(code) => {
            let mut chars = chars_of("exit code: ");
            push_signed_decimal(&mut chars, *code);
            string_of(&chars)
        },
        Err(message) => joined_line("execution failed: ", message.as_str()),
    }
}

// ---------------------------------------------------------------------------
// Internal commands
// ---------------------------------------------------------------------------

/// The label under which an internal command is shown while it runs.
pub open spec fn internal_label(command: InternalCommand) -> Seq<char> {
    match command {
        InternalCommand::Reload => "/reload"@,
        InternalCommand::Init { force } => "/init"@,
        InternalCommand::Unknown(name) => "internal"@,
    }
}

/// The result of an internal command that does not exist.
pub open spec fn unknown_internal_text(name: Seq<char>) -> Seq<char> {
    "Unknown internal command '/"@ + name + "'. Available: /reload, /init"@
}

/// The result of an internal command that does not exist.
pub fn unknown_internal_result(name: &str) -> (r: InternalTaskResult)
    ensures
        r matches InternalTaskResult::Error(message) && message@ == unknown_internal_text(name@),
{
    let mut out = "Unknown internal command '/".to_owned();
    out.append(name);
    out.append("'. Available: /reload, /init");
    InternalTaskResult::Error(out)
}

/// The result of a reload that failed.
pub fn reload_failed_result(error: &str) -> (r: InternalTaskResult)
    ensures
        r matches InternalTaskResult::Error(message) && message@ == "reload failed: "@ + error@,
{
    InternalTaskResult::Error(joined_line("reload failed: ", error))
}

/// The result of an init that failed.
pub fn init_failed_result(error: &str) -> (r: InternalTaskResult)
    ensures
        r matches InternalTaskResult::Error(message) && message@ == "init failed: "@ + error@,
{
    InternalTaskResult::Error(joined_line("init failed: ", error))
}

/// The state when an internal command starts: search mode, an empty query
/// with its results, and the loading indicator on.
pub open spec fn internal_begun(pre: AppState, command: InternalCommand, post: AppState) -> bool {
    &&& post == (AppState {
        mode: Mode::Search,
        query: post.query,
        query_cursor: 0,
        filtered: post.filtered,
        selected: 0,
        is_loading: true,
        loading_label: post.loading_label,
        spinner_index: 0,
        ..pre
    })
    &&& post.query@ == Seq::<char>::empty()
    &&& post.filtered@ == results_of(pre, Seq::empty())
    &&& text_of(post.loading_label) == Some(internal_label(command))
}

/// The lines that the result of an internal command leaves in the log.
pub open spec fn result_lines(result: InternalTaskResult) -> Seq<(ChatLineKind, Seq<char>)> {
    match result {
        InternalTaskResult::Reloaded(payload) => seq![
            (ChatLineKind::Info, reloaded_line(payload.commands@.len())),
        ],
        InternalTaskResult::Inited { path, payload } => seq![
            (ChatLineKind::Info, "Wrote example config: "@ + path@),
            (ChatLineKind::Info, reloaded_line(payload.commands@.len())),
        ],
        InternalTaskResult::Error(message) => seq![(ChatLineKind::Stderr, message@)],
        InternalTaskResult::WorkerLost => seq![
            (ChatLineKind::Stderr, "internal command worker disconnected unexpectedly"@),
        ],
    }
}

/// The state when an internal command has ended: a reloaded catalog is taken
/// over, the result is logged, and the loading indicator is off.
pub open spec fn internal_finished(pre: AppState, result: InternalTaskResult, post: AppState) -> bool {
    let idle = loading_stopped(pre);
    match result {
        InternalTaskResult::Reloaded(payload) => exists|mid: AppState|
            #[trigger] reloaded(idle, payload, mid) && lines_added(mid, result_lines(result), post),
        InternalTaskResult::Inited { path, payload } => exists|mid: AppState|
            #[trigger] reloaded(idle, payload, mid) && lines_added(mid, result_lines(result), post),
        _ => lines_added(idle, result_lines(result), post),
    }
}

impl AppState {
    /// Prepares the state for an internal command and returns its label.
    pub fn begin_internal(&mut self, command: &InternalCommand) -> (label: &'static str)
        ensures
            internal_begun(*old(self), *command, *final(self)),
            label@ == internal_label(*command),
            final(self).consistent(),
            final(self).chat == old(self).chat,
    {
        self.mode = Mode::Search;
        self.query = String::new();
        assert(self.query@ =~= Seq::<char>::empty());
        self.query_cursor = 0;
        self.refresh_filtered();
        let label = match command {
            InternalCommand::Reload => "/reload",
            InternalCommand::Init { force } => "/init",
            InternalCommand::Unknown(name) => "internal",
        };
        self.start_loading(label);
        label
    }

    /// Takes over what an internal command brought back.
    pub fn finish_internal(&mut self, result: InternalTaskResult)
        ensures
            old(self).wf() ==> final(self).wf(),
            internal_finished(*old(self), result, *final(self)),
    {
        self.stop_loading();
        let ghost idle = *self;
        match result {
            InternalTaskResult::Reloaded(payload) => {
                let count = payload.commands.len();
                self.apply_reload_payload(payload);
                let ghost mid = *self;
                self.push_info(counted_line("Reloaded ", count, " commands"));
                proof {
                    let s1 = *self;
                    let l1 = (ChatLineKind::Info, reloaded_line(count as nat));
                    assert(lines_added(s1, Seq::empty(), s1));
                    lemma_lines_added_step(mid, l1.0, l1.1, s1, Seq::empty(), s1);
                    assert(seq![l1] + Seq::empty() =~= result_lines(result));
                    assert(reloaded(idle, payload, mid));
                }
            },
            InternalTaskResult::Inited { path, payload } => {
                let count = payload.commands.len();
                self.apply_reload_payload(payload);
                let ghost mid = *self;
                self.push_info(joined_line("Wrote example config: ", path.as_str()));
                let ghost s1 = *self;
                self.push_info(counted_line("Reloaded ", count, " commands"));
                proof {
                    let s2 = *self;
                    let l1 = (ChatLineKind::Info, "Wrote example config: "@ + path@);
                    let l2 = (ChatLineKind::Info, reloaded_line(count as nat));
                    assert(lines_added(s2, Seq::empty(), s2));
                    lemma_lines_added_step(s1, l2.0, l2.1, s2, Seq::empty(), s2);
                    lemma_lines_added_step(mid, l1.0, l1.1, s1, seq![l2] + Seq::empty(), s2);
                    assert(seq![l1] + (seq![l2] + Seq::empty()) =~= result_lines(result));
                    assert(reloaded(idle, payload, mid));
                }
            },
            InternalTaskResult::Error(message) => {
                let ghost text = message@;
                self.push_error(message);
                proof {
                    let s1 = *self;
                    let l1 = (ChatLineKind::Stderr, text);
                    assert(lines_added(s1, Seq::empty(), s1));
                    lemma_lines_added_step(idle, l1.0, l1.1, s1, Seq::empty(), s1);
                    assert(seq![l1] + Seq::empty() =~= result_lines(result));
                }
            },
            InternalTaskResult::WorkerLost => {
                self.push_error("internal command worker disconnected unexpectedly".to_owned());
                proof {
                    let s1 = *self;
                    let l1 = (
                        ChatLineKind::Stderr,
                        "internal command worker disconnected unexpectedly"@,
                    );
                    assert(lines_added(s1, Seq::empty(), s1));
                    lemma_lines_added_step(idle, l1.0, l1.1, s1, Seq::empty(), s1);
                    assert(seq![l1] + Seq::empty() =~= result_lines(result));
                }
            },
        }
    }
}

} // verus!
