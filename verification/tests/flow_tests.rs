use fzc::app::{step_selection, ActivePane, AppState, Mode, ReloadPayload, RuntimeContext, UiAction};
use fzc::input::{
    parse_flag_input, parse_internal_command, query_has_force_flag, InternalCommand, Key, KeyCode,
};
use fzc::model::{render_template, CommandEntry, CommandSource, ParamSpec, ParamType};
use fzc::run::{InternalTaskResult, RunOutcome, RunPlan};
use fzc::search::{RankingSettings, SearchItem};
use fzc::session::ChatLineKind;
use fzc::view::{
    command_row, commands_title, display_command_name, hint_text, prompt_lines, provider_badge,
    render_chat_line, search_bar_text,
};

fn entry(name: &str, template: &str) -> CommandEntry {
    CommandEntry {
        name: name.to_string(),
        description: None,
        template: template.to_string(),
        params: Vec::new(),
        source: CommandSource::Config,
        working_dir: None,
    }
}

fn value_param(name: &str) -> ParamSpec {
    ParamSpec {
        name: name.to_string(),
        kind: ParamType::Value,
        prompt: format!("{name}:"),
        placeholder: None,
        default_value: None,
        value_value: None,
        default_flag: None,
        value_flag: None,
        required: false,
        prompt_in_tui: false,
    }
}

fn app_with(commands: Vec<CommandEntry>) -> AppState {
    AppState::new(
        commands,
        Some("/etc/fzc.toml".to_string()),
        Vec::new(),
        RankingSettings { usage_enabled: true, usage_weight: 8_000 },
        RuntimeContext { cwd: "/tmp".to_string(), explicit_config_path: None },
        Vec::new(),
    )
}

fn last_line(app: &AppState) -> &str {
    app.chat.last().map(|line| line.text.as_str()).unwrap_or("")
}

#[test]
fn start_sorts_the_catalog_and_logs_two_lines() {
    let app = app_with(vec![entry("zeta", "z"), entry("Alpha", "a"), entry("beta", "b")]);
    let names: Vec<&str> = app.commands.iter().map(|c| c.name.as_str()).collect();
    assert_eq!(names, vec!["Alpha", "beta", "zeta"]);
    assert_eq!(app.chat.len(), 2);
    assert_eq!(app.chat[0].text, "Loaded 3 commands");
    assert_eq!(app.chat[1].text, "Config: /etc/fzc.toml");
    assert_eq!(app.filtered.len(), 3);
    assert!(app.is_well_formed());

    let bare = AppState::new(
        Vec::new(),
        None,
        Vec::new(),
        RankingSettings { usage_enabled: true, usage_weight: 1 },
        RuntimeContext { cwd: "/".to_string(), explicit_config_path: None },
        Vec::new(),
    );
    assert_eq!(bare.chat[0].text, "Loaded 0 commands");
    assert_eq!(bare.chat[1].text, "Config: none (providers only or defaults)");
}

#[test]
fn escape_clears_the_query_then_quits() {
    let mut app = app_with(vec![entry("build", "make")]);
    app.on_key(Key::plain(KeyCode::Char('b')));
    assert_eq!(app.query, "b");
    let action = app.on_key(Key::plain(KeyCode::Esc));
    assert!(matches!(action, UiAction::Idle));
    assert_eq!(app.query, "");
    assert_eq!(app.query_cursor, 0);
    let action = app.on_key(Key::plain(KeyCode::Esc));
    assert!(matches!(action, UiAction::Quit));
}

#[test]
fn control_keys_in_search() {
    let mut app = app_with(vec![entry("a", "a"), entry("b", "b"), entry("c", "c")]);
    let ctrl = |c: char| Key {
        code: KeyCode::Char(c),
        shift: false,
        control: true,
        alt: false,
        other_modifier: false,
    };
    app.on_key(ctrl('j'));
    assert_eq!(app.selected, 1);
    app.on_key(ctrl('k'));
    app.on_key(ctrl('k'));
    assert_eq!(app.selected, 2);
    assert_eq!(app.query, "");
    assert!(matches!(app.on_key(ctrl('c')), UiAction::Quit));
    app.on_key(ctrl('x'));
    assert_eq!(app.query, "");
}

#[test]
fn selection_wraps_round() {
    assert_eq!(step_selection(0, 3, -1), 2);
    assert_eq!(step_selection(2, 3, 1), 0);
    assert_eq!(step_selection(1, 3, 10), 2);
    assert_eq!(step_selection(1, 3, -10), 0);
    assert_eq!(step_selection(5, 0, 1), 0);
}

#[test]
fn backspace_and_delete_edit_at_the_cursor() {
    let mut app = app_with(vec![entry("build", "make")]);
    for c in "héllo".chars() {
        app.on_key(Key::plain(KeyCode::Char(c)));
    }
    assert_eq!(app.query_cursor, 5);
    app.on_key(Key::plain(KeyCode::Home));
    app.on_key(Key::plain(KeyCode::Right));
    app.on_key(Key::plain(KeyCode::Delete));
    assert_eq!(app.query, "hllo");
    assert_eq!(app.query_cursor, 1);
    app.on_key(Key::plain(KeyCode::End));
    app.on_key(Key::plain(KeyCode::Backspace));
    assert_eq!(app.query, "hll");
    assert_eq!(app.query_cursor, 3);
    app.on_key(Key::plain(KeyCode::Delete));
    assert_eq!(app.query, "hll");
    app.on_key(Key::plain(KeyCode::Home));
    app.on_key(Key::plain(KeyCode::Backspace));
    assert_eq!(app.query, "hll");
    assert_eq!(app.selected, 0);
}

#[test]
fn help_overlay_closes_on_any_key() {
    let mut app = app_with(vec![entry("build", "make")]);
    app.on_key(Key::plain(KeyCode::Char('?')));
    assert!(app.show_help);
    app.on_key(Key::plain(KeyCode::Esc));
    assert!(!app.show_help);
    assert_eq!(app.query, "");

    app.on_key(Key::plain(KeyCode::Char('?')));
    app.on_key(Key::plain(KeyCode::Char('?')));
    assert!(!app.show_help);

    app.show_help = true;
    app.on_key(Key::plain(KeyCode::Tab));
    assert!(!app.show_help);
    assert!(matches!(app.active_pane, ActivePane::Session));
}

#[test]
fn enter_without_a_selection_says_so() {
    let mut app = app_with(Vec::new());
    let action = app.on_key(Key::plain(KeyCode::Enter));
    assert!(matches!(action, UiAction::Idle));
    assert_eq!(last_line(&app), "No command selected");
}

#[test]
fn enter_runs_a_command_without_parameters() {
    let mut command = entry("build", "make {{target}} {{fast}}");
    command.working_dir = Some("/srv".to_string());
    let mut target = value_param("target");
    target.value_value = Some("all".to_string());
    let mut fast = value_param("fast");
    fast.kind = ParamType::Flag;
    fast.value_flag = Some(true);
    command.params = vec![target, fast];

    let mut app = app_with(vec![command]);
    app.on_key(Key::plain(KeyCode::Char('b')));
    let alt_enter =
        Key { code: KeyCode::Enter, shift: false, control: false, alt: true, other_modifier: false };
    let UiAction::Run(request) = app.on_key(alt_enter) else {
        panic!("expected a run");
    };
    assert_eq!(request.command_line, "make all --fast");
    assert_eq!(request.display_name, "build");
    assert_eq!(request.working_dir.as_deref(), Some("/srv"));
    assert_eq!(request.usage_key, "config::build");
    assert!(!request.return_to_tui);
    assert_eq!(app.query, "");
    assert_eq!(app.query_cursor, 0);
}

#[test]
fn defaults_are_used_without_asking() {
    let mut command = entry("deploy", "deploy {{env}}");
    let mut env = value_param("env");
    env.default_value = Some("staging".to_string());
    command.params = vec![env];
    let mut app = app_with(vec![command]);
    let UiAction::Run(request) = app.on_key(Key::plain(KeyCode::Enter)) else {
        panic!("expected a run");
    };
    assert_eq!(request.command_line, "deploy staging");
    assert!(request.return_to_tui);
}

#[test]
fn required_value_is_asked_again() {
    let mut command = entry("deploy", "deploy {{env}} {{tag}}");
    let mut env = value_param("env");
    env.required = true;
    let mut tag = value_param("tag");
    tag.default_value = Some("latest".to_string());
    tag.prompt_in_tui = true;
    command.params = vec![env, tag];
    let mut app = app_with(vec![command]);

    assert!(matches!(app.on_key(Key::plain(KeyCode::Enter)), UiAction::Idle));
    let Mode::Prompt(prompt) = &app.mode else {
        panic!("expected a prompt");
    };
    assert_eq!(prompt.pending_params, vec![0, 1]);
    assert_eq!(
        prompt_lines(&app, prompt),
        vec!["env: (1/2)".to_string(), String::new(), "command: deploy".to_string(), "> ".to_string()]
    );

    assert!(matches!(app.on_key(Key::plain(KeyCode::Enter)), UiAction::Idle));
    assert_eq!(last_line(&app), "'env' is required");
    assert!(matches!(&app.mode, Mode::Prompt(p) if p.current_param == 0));

    for c in " prod ".chars() {
        app.on_key(Key::plain(KeyCode::Char(c)));
    }
    app.on_key(Key::plain(KeyCode::Char('x')));
    app.on_key(Key::plain(KeyCode::Backspace));
    assert!(matches!(app.on_key(Key::plain(KeyCode::Enter)), UiAction::Idle));
    assert!(matches!(&app.mode, Mode::Prompt(p) if p.current_param == 1 && p.input.is_empty()));

    let UiAction::Run(request) = app.on_key(Key::plain(KeyCode::Enter)) else {
        panic!("expected a run");
    };
    assert_eq!(request.command_line, "deploy prod latest");
    assert!(matches!(app.mode, Mode::Search));
}

#[test]
fn escape_cancels_the_prompt() {
    let mut command = entry("deploy", "deploy {{env}}");
    command.params = vec![value_param("env")];
    let mut app = app_with(vec![command]);
    app.on_key(Key::plain(KeyCode::Enter));
    assert!(matches!(app.mode, Mode::Prompt(_)));
    assert!(matches!(app.on_key(Key::plain(KeyCode::Esc)), UiAction::Idle));
    assert!(matches!(app.mode, Mode::Search));
    assert_eq!(last_line(&app), "Parameter entry canceled");
}

#[test]
fn flag_prompt_rejects_other_answers() {
    let mut command = entry("deploy", "deploy {{force}}");
    let mut force = value_param("force");
    force.kind = ParamType::Flag;
    command.params = vec![force];
    let mut app = app_with(vec![command]);
    app.on_key(Key::plain(KeyCode::Enter));
    app.on_key(Key::plain(KeyCode::Char('m')));
    assert!(matches!(&app.mode, Mode::Prompt(p) if p.input == "m"));
    assert!(matches!(app.on_key(Key::plain(KeyCode::Enter)), UiAction::Idle));
    assert_eq!(last_line(&app), "Please enter y or n");
    assert!(matches!(&app.mode, Mode::Prompt(p) if p.input == "m"));

    app.on_key(Key::plain(KeyCode::Backspace));
    let UiAction::Run(request) = app.on_key(Key::plain(KeyCode::Char('n'))) else {
        panic!("expected a run");
    };
    assert_eq!(request.command_line, "deploy ");
}

#[test]
fn placeholders_that_are_left_stop_the_run() {
    let mut app = app_with(vec![entry("deploy", "deploy {{env}}")]);
    assert!(matches!(app.on_key(Key::plain(KeyCode::Enter)), UiAction::Idle));
    assert_eq!(last_line(&app), "Command 'deploy' still has unresolved placeholders");
    assert!(matches!(app.mode, Mode::Search));
}

#[test]
fn template_rendering() {
    let values = vec![("a".to_string(), "1".to_string()), ("b".to_string(), "{{a}}".to_string())];
    assert_eq!(render_template("{{a}}-{{a}}-{{b}}-{{c}}", &values), "1-1-{{a}}-{{c}}");
    assert_eq!(render_template("", &values), "");
    assert_eq!(render_template("{{{a}}}", &values), "{1}");
    let later = vec![("b".to_string(), "{{a}}".to_string()), ("a".to_string(), "1".to_string())];
    assert_eq!(render_template("{{b}}", &later), "1");
}

#[test]
fn flag_answers() {
    for yes in ["y", "YES", " true ", "1", "On"] {
        assert_eq!(parse_flag_input(yes, false), Some(true));
    }
    for no in ["n", "No", "FALSE", "0", "off"] {
        assert_eq!(parse_flag_input(no, true), Some(false));
    }
    assert_eq!(parse_flag_input("", true), Some(true));
    assert_eq!(parse_flag_input("   ", false), Some(false));
    assert_eq!(parse_flag_input("maybe", true), None);
    assert_eq!(parse_flag_input("t", true), None);
}

#[test]
fn internal_commands_are_parsed() {
    assert!(parse_internal_command("reload").is_none());
    assert!(matches!(parse_internal_command("  /RELOAD now "), Some(InternalCommand::Reload)));
    assert!(matches!(
        parse_internal_command("/init"),
        Some(InternalCommand::Init { force: false })
    ));
    assert!(matches!(
        parse_internal_command("/init x -f"),
        Some(InternalCommand::Init { force: true })
    ));
    assert!(matches!(parse_internal_command("/"), Some(InternalCommand::Unknown(name)) if name.is_empty()));
    assert!(matches!(parse_internal_command("/Foo bar"), Some(InternalCommand::Unknown(name)) if name == "foo"));
    assert!(query_has_force_flag("/init --force"));
    assert!(query_has_force_flag("-f"));
    assert!(!query_has_force_flag("/init --forced"));
}

#[test]
fn internal_reload_and_forced_init_resolve_at_once() {
    let mut app = app_with(vec![entry("build", "make")]);
    for c in "/reload".chars() {
        app.on_key(Key::plain(KeyCode::Char(c)));
    }
    let UiAction::RunInternal(request) = app.on_key(Key::plain(KeyCode::Enter)) else {
        panic!("expected an internal run");
    };
    assert!(matches!(request.command, InternalCommand::Reload));

    app.query = "/init -f".to_string();
    app.query_cursor = 8;
    app.refresh_filtered();
    let UiAction::RunInternal(request) = app.on_key(Key::plain(KeyCode::Enter)) else {
        panic!("expected an internal run");
    };
    assert!(matches!(request.command, InternalCommand::Init { force: true }));
    assert!(matches!(app.mode, Mode::Search));
}

#[test]
fn internal_prompt_resolves_the_force_decision() {
    let mut app = app_with(vec![entry("build", "make")]);
    app.query = "/init".to_string();
    app.query_cursor = 5;
    app.refresh_filtered();
    app.on_key(Key::plain(KeyCode::Enter));
    assert!(matches!(app.mode, Mode::InternalPrompt(_)));

    app.on_key(Key::plain(KeyCode::Char('q')));
    assert!(matches!(app.on_key(Key::plain(KeyCode::Enter)), UiAction::Idle));
    assert_eq!(last_line(&app), "Please enter y or n");
    app.on_key(Key::plain(KeyCode::Backspace));
    let UiAction::RunInternal(request) = app.on_key(Key::plain(KeyCode::Enter)) else {
        panic!("expected an internal run");
    };
    assert!(matches!(request.command, InternalCommand::Init { force: false }));
    assert!(matches!(app.mode, Mode::Search));

    app.query = "/init".to_string();
    app.refresh_filtered();
    app.on_key(Key::plain(KeyCode::Enter));
    let UiAction::RunInternal(request) = app.on_key(Key::plain(KeyCode::Char('Y'))) else {
        panic!("expected an internal run");
    };
    assert!(matches!(request.command, InternalCommand::Init { force: true }));

    app.query = "/init".to_string();
    app.refresh_filtered();
    app.on_key(Key::plain(KeyCode::Enter));
    app.on_key(Key::plain(KeyCode::Esc));
    assert_eq!(last_line(&app), "Internal command canceled");
    assert!(matches!(app.mode, Mode::Search));
}

#[test]
fn unknown_internal_query_says_so() {
    let mut app = app_with(vec![entry("build", "make")]);
    app.query = "/zzz".to_string();
    app.query_cursor = 4;
    app.refresh_filtered();
    assert!(app.filtered.is_empty());
    assert!(matches!(app.on_key(Key::plain(KeyCode::Enter)), UiAction::Idle));
    assert_eq!(last_line(&app), "Unknown internal command. Available: /reload, /init");
}

#[test]
fn streamed_run_is_logged_and_counted() {
    let mut command = entry("build", "make");
    command.working_dir = Some("/srv".to_string());
    let mut app = app_with(vec![command]);
    let UiAction::Run(request) = app.on_key(Key::plain(KeyCode::Enter)) else {
        panic!("expected a run");
    };
    let before = app.chat.len();
    assert_eq!(app.begin_run(&request), RunPlan::Streamed);
    assert!(app.is_loading);
    assert_eq!(app.loading_label.as_deref(), Some("build"));
    assert_eq!(app.chat.len(), before + 2);
    assert!(matches!(app.chat[before].kind, ChatLineKind::Command));
    assert_eq!(app.chat[before].text, "make");
    assert_eq!(app.chat[before + 1].text, "working directory: /srv");

    app.finish_run(&request, RunOutcome::Exited(-2));
    assert_eq!(last_line(&app), "exit code: -2");
    assert!(!app.is_loading);
    assert_eq!(app.usage_counts, vec![("config::build".to_string(), 1)]);

    app.finish_run(&request, RunOutcome::Interrupted);
    assert_eq!(last_line(&app), "Interrupted by user (Escape)");
    assert_eq!(app.usage_counts, vec![("config::build".to_string(), 2)]);

    app.finish_run(&request, RunOutcome::Failed { message: "no shell".to_string(), started: false });
    assert_eq!(last_line(&app), "execution failed: no shell");
    assert!(matches!(app.chat.last().unwrap().kind, ChatLineKind::Stderr));
    assert_eq!(app.usage_counts, vec![("config::build".to_string(), 2)]);
}

#[test]
fn run_in_the_shell_leaves_the_log_alone() {
    let mut app = app_with(vec![entry("build", "make")]);
    let alt_enter =
        Key { code: KeyCode::Enter, shift: false, control: false, alt: true, other_modifier: false };
    let UiAction::Run(request) = app.on_key(alt_enter) else {
        panic!("expected a run");
    };
    let before = app.chat.len();
    assert_eq!(app.begin_run(&request), RunPlan::Inherited);
    assert_eq!(app.chat.len(), before);
    assert_eq!(
        fzc::run::shell_banner_lines(&request),
        vec!["".to_string(), "fzc: build".to_string(), "$ make".to_string(), "".to_string()]
    );
    assert_eq!(fzc::run::shell_result_line(&Ok(0)), "exit code: 0");
    assert_eq!(fzc::run::shell_result_line(&Err("boom".to_string())), "execution failed: boom");
    app.finish_inherited_run(&request, true);
    assert_eq!(app.usage_counts.len(), 1);
    app.finish_inherited_run(&request, false);
    assert_eq!(app.usage_counts[0].1, 1);
}

#[test]
fn reload_replaces_the_catalog() {
    let mut app = app_with(vec![entry("old", "old")]);
    let label = app.begin_internal(&InternalCommand::Reload);
    assert_eq!(label, "/reload");
    assert!(app.is_loading);
    let payload = fzc::run::make_reload_payload(
        vec![entry("b", "b"), entry("a", "a")],
        None,
        vec![("x".to_string(), "config".to_string())],
        RankingSettings { usage_enabled: false, usage_weight: 0 },
    );
    app.finish_internal(InternalTaskResult::Reloaded(payload));
    assert!(!app.is_loading);
    let names: Vec<&str> = app.commands.iter().map(|c| c.name.as_str()).collect();
    assert_eq!(names, vec!["a", "b"]);
    assert_eq!(app.filtered, vec![SearchItem::Command(0), SearchItem::Command(1)]);
    assert_eq!(last_line(&app), "Reloaded 2 commands");
    assert_eq!(app.provider_aliases.len(), 1);

    let empty = ReloadPayload {
        commands: Vec::new(),
        config_path: Some("/p".to_string()),
        provider_aliases: Vec::new(),
        ranking: RankingSettings { usage_enabled: true, usage_weight: 1 },
    };
    app.finish_internal(InternalTaskResult::Inited { path: "/p".to_string(), payload: empty });
    assert_eq!(app.chat[app.chat.len() - 2].text, "Wrote example config: /p");
    assert_eq!(last_line(&app), "Reloaded 0 commands");

    app.finish_internal(fzc::run::unknown_internal_result("foo"));
    assert_eq!(last_line(&app), "Unknown internal command '/foo'. Available: /reload, /init");
    app.finish_internal(fzc::run::reload_failed_result("bad toml"));
    assert_eq!(last_line(&app), "reload failed: bad toml");
    app.finish_internal(fzc::run::init_failed_result("exists"));
    assert_eq!(last_line(&app), "init failed: exists");
    app.finish_internal(InternalTaskResult::WorkerLost);
    assert_eq!(last_line(&app), "internal command worker disconnected unexpectedly");
}

#[test]
fn what_the_list_shows() {
    let command = CommandEntry {
        name: "Artisan cache:clear".to_string(),
        description: Some("Flush".to_string()),
        template: "x".to_string(),
        params: Vec::new(),
        source: CommandSource::Provider("artisan"),
        working_dir: None,
    };
    assert_eq!(display_command_name(&command, "artisan"), "cache:clear");
    assert_eq!(display_command_name(&command, "just"), "Artisan cache:clear");
    let aliases = vec![("a".to_string(), "artisan".to_string())];
    assert_eq!(provider_badge(&aliases, "artisan"), "a");
    assert_eq!(provider_badge(&aliases, "justfile"), "justfile");
    assert_eq!(commands_title(2, 10, true), "Commands (2/10) [active]");
    assert_eq!(commands_title(0, 0, false), "Commands (0/0)");

    let mut app = app_with(vec![command]);
    app.provider_aliases = aliases;
    let row = command_row(&app, SearchItem::Command(0));
    let texts: Vec<&str> = row.iter().map(|s| s.text.as_str()).collect();
    assert_eq!(texts, vec!["[a] ", "cache:clear", " | Flush"]);
    let internal = command_row(&app, SearchItem::Internal(1));
    let texts: Vec<&str> = internal.iter().map(|s| s.text.as_str()).collect();
    assert_eq!(texts, vec!["[internal] ", "/reload", " | Reload config and providers"]);
    assert!(command_row(&app, SearchItem::Command(7)).is_empty());

    assert_eq!(search_bar_text(&app), "Search: ");
    assert_eq!(hint_text(&app), "  ? for help");
    app.start_loading("build");
    assert_eq!(search_bar_text(&app), "Search: ⠋ Running build (Esc to interrupt)");
    assert_eq!(hint_text(&app), "  Esc to interrupt");
    app.tick_loading();
    assert_eq!(app.spinner_frame(), "⠙");
}

#[test]
fn what_the_log_shows() {
    let line = fzc::session::ChatLine {
        kind: ChatLineKind::Stdout,
        text: "\u{1b}[31mred\u{1b}[0m ok".to_string(),
    };
    let segments = render_chat_line(&line);
    let texts: Vec<&str> = segments.iter().map(|s| s.text.as_str()).collect();
    assert_eq!(texts, vec!["  ", "red", " ok"]);
    assert_eq!(segments[1].style.fg, Some(fzc::ansi::Color::Red));
    assert_eq!(segments[2].style.fg, Some(fzc::ansi::Color::White));

    let info = fzc::session::ChatLine { kind: ChatLineKind::Info, text: "hi".to_string() };
    let texts: Vec<String> = render_chat_line(&info).into_iter().map(|s| s.text).collect();
    assert_eq!(texts, vec!["• ".to_string(), "hi".to_string()]);
}
