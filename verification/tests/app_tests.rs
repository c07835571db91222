use fzc::app::{ActivePane, AppState, Mode, RuntimeContext, UiAction};
use fzc::input::{parse_internal_command, InternalCommand, Key, KeyCode};
use fzc::model::{CommandEntry, CommandSource, ParamSpec, ParamType};
use fzc::search::{command_usage_key, RankingSettings, SearchItem};

fn mock_command(name: &str) -> CommandEntry {
    CommandEntry {
        name: name.to_string(),
        description: Some("artisan command".to_string()),
        template: format!("php artisan {name}"),
        params: Vec::new(),
        source: CommandSource::Provider("artisan"),
        working_dir: None,
    }
}

fn default_ranking() -> RankingSettings {
    RankingSettings { usage_enabled: true, usage_weight: 8_000 }
}

fn test_runtime() -> RuntimeContext {
    RuntimeContext { cwd: "/tmp".to_string(), explicit_config_path: None }
}

fn new_app(commands: Vec<CommandEntry>, aliases: Vec<(String, String)>) -> AppState {
    AppState::new(commands, None, aliases, default_ranking(), test_runtime(), Vec::new())
}

fn top_name_for(query: &str, commands: Vec<CommandEntry>) -> String {
    let mut app = new_app(commands, Vec::new());
    app.query = query.to_string();
    app.refresh_filtered();

    let SearchItem::Command(index) = app.filtered[0] else {
        panic!("expected command result");
    };
    app.commands[index].name.clone()
}

fn plain(code: KeyCode) -> Key {
    Key::plain(code)
}

#[test]
fn phrase_query_prefers_cache_clear() {
    let top = top_name_for(
        "cache clear",
        vec![
            mock_command("artisan cache:clear"),
            mock_command("artisan clear-compiled"),
            mock_command("artisan cache:table"),
        ],
    );
    assert_eq!(top, "artisan cache:clear");
}

#[test]
fn reversed_query_still_prefers_cache_clear() {
    let top = top_name_for(
        "clear cache",
        vec![
            mock_command("artisan cache:clear"),
            mock_command("artisan clear-compiled"),
            mock_command("artisan cache:table"),
        ],
    );
    assert_eq!(top, "artisan cache:clear");
}

#[test]
fn prompt_submit_switches_back_to_search_mode() {
    let mut command = mock_command("deploy");
    command.template = "deploy --env={{env}}".to_string();
    command.params = vec![ParamSpec {
        name: "env".to_string(),
        kind: ParamType::Value,
        prompt: "Environment".to_string(),
        placeholder: None,
        default_value: None,
        value_value: None,
        default_flag: None,
        value_flag: None,
        required: true,
        prompt_in_tui: true,
    }];

    let mut app = new_app(vec![command], Vec::new());
    let action = app.prepare_selected_command(true);
    assert!(matches!(action, UiAction::Idle));
    assert!(matches!(app.mode, Mode::Prompt(_)));

    if let Mode::Prompt(prompt) = &mut app.mode {
        prompt.input = "production".to_string();
    }

    let action = app.on_prompt_key(plain(KeyCode::Enter));
    assert!(matches!(action, UiAction::Run(_)));
    assert!(matches!(app.mode, Mode::Search));
}

fn two_provider_commands() -> Vec<CommandEntry> {
    vec![
        CommandEntry {
            name: "artisan cache:clear".to_string(),
            description: None,
            template: "php artisan cache:clear".to_string(),
            params: Vec::new(),
            source: CommandSource::Provider("artisan"),
            working_dir: None,
        },
        CommandEntry {
            name: "just build".to_string(),
            description: None,
            template: "just build".to_string(),
            params: Vec::new(),
            source: CommandSource::Provider("justfile"),
            working_dir: None,
        },
    ]
}

#[test]
fn alias_filter_limits_results_to_provider() {
    let aliases = vec![
        ("a".to_string(), "artisan".to_string()),
        ("j".to_string(), "justfile".to_string()),
    ];

    let mut app = new_app(two_provider_commands(), aliases);
    app.query = ":a cache".to_string();
    app.refresh_filtered();

    assert_eq!(app.filtered.len(), 1);
    let SearchItem::Command(index) = app.filtered[0] else {
        panic!("expected command result");
    };
    assert_eq!(app.commands[index].name, "artisan cache:clear");
}

#[test]
fn provider_name_filter_works_without_alias() {
    let aliases = vec![("a".to_string(), "artisan".to_string())];

    let mut app = new_app(two_provider_commands(), aliases);
    app.query = ":justfile build".to_string();
    app.refresh_filtered();

    assert_eq!(app.filtered.len(), 1);
    let SearchItem::Command(index) = app.filtered[0] else {
        panic!("expected command result");
    };
    assert_eq!(app.commands[index].name, "just build");
}

#[test]
fn provider_name_filter_is_disabled_when_alias_exists() {
    let commands = vec![CommandEntry {
        name: "artisan cache:clear".to_string(),
        description: None,
        template: "php artisan cache:clear".to_string(),
        params: Vec::new(),
        source: CommandSource::Provider("artisan"),
        working_dir: None,
    }];
    let aliases = vec![("a".to_string(), "artisan".to_string())];

    let mut app = new_app(commands, aliases);
    app.query = ":artisan cache".to_string();
    app.refresh_filtered();

    assert!(app.filtered.is_empty());
}

#[test]
fn search_cursor_allows_mid_string_editing() {
    let mut app = new_app(vec![mock_command("artisan cache:clear")], Vec::new());
    app.on_search_key(plain(KeyCode::Char('a')));
    app.on_search_key(plain(KeyCode::Char('c')));
    app.on_search_key(plain(KeyCode::Right));
    app.on_search_key(plain(KeyCode::Left));
    app.on_search_key(plain(KeyCode::Char('b')));
    assert_eq!(app.query, "abc");
}

#[test]
fn usage_ranking_prefers_more_frequent_command() {
    let cmd_a = mock_command("artisan cache:clear");
    let cmd_b = mock_command("artisan cache:table");
    let key_b = command_usage_key(&cmd_b);

    let mut app = new_app(vec![cmd_a, cmd_b], Vec::new());
    app.usage_counts.push((key_b, 5));
    app.query = "cache".to_string();
    app.refresh_filtered();

    let SearchItem::Command(index) = app.filtered[0] else {
        panic!("expected command result");
    };
    assert_eq!(app.commands[index].name, "artisan cache:table");
}

#[test]
fn help_mode_auto_closes_and_allows_typing() {
    let mut app = new_app(vec![mock_command("artisan cache:clear")], Vec::new());
    app.show_help = true;
    app.query = "cache".to_string();
    app.query_cursor = app.query.chars().count();

    let action = app.on_key(plain(KeyCode::Char('x')));
    assert!(matches!(action, UiAction::Idle));
    assert_eq!(app.query, "cachex");
    assert!(!app.show_help);
}

#[test]
fn tab_switches_focus_to_session_and_typing_returns_to_commands() {
    let mut app = new_app(vec![mock_command("artisan cache:clear")], Vec::new());

    assert!(matches!(app.active_pane, ActivePane::Commands));
    app.on_search_key(plain(KeyCode::Tab));
    assert!(matches!(app.active_pane, ActivePane::Session));

    app.on_search_key(plain(KeyCode::Char('x')));
    assert!(matches!(app.active_pane, ActivePane::Commands));
    assert_eq!(app.query, "x");
}

#[test]
fn session_focus_allows_scroll_keys() {
    let mut app = new_app(vec![mock_command("artisan cache:clear")], Vec::new());
    for i in 0..20 {
        app.push_info(format!("line {i}"));
    }

    app.on_search_key(plain(KeyCode::Tab));
    assert!(matches!(app.active_pane, ActivePane::Session));
    assert_eq!(app.session_scroll, 0);

    app.on_search_key(plain(KeyCode::Up));
    assert!(app.session_scroll > 0);
}

#[test]
fn enter_does_nothing_when_session_is_active() {
    let mut app = new_app(vec![mock_command("artisan cache:clear")], Vec::new());

    app.on_search_key(plain(KeyCode::Tab));
    assert!(matches!(app.active_pane, ActivePane::Session));

    let action = app.on_search_key(plain(KeyCode::Enter));
    assert!(matches!(action, UiAction::Idle));
    assert!(matches!(app.mode, Mode::Search));
}

#[test]
fn parses_internal_reload_command() {
    let parsed = parse_internal_command("/reload").unwrap();
    assert!(matches!(parsed, InternalCommand::Reload));
}

#[test]
fn parses_internal_init_force_command() {
    let parsed = parse_internal_command("/init --force").unwrap();
    assert!(matches!(parsed, InternalCommand::Init { force: true }));
}

#[test]
fn internal_init_without_force_opens_prompt() {
    let mut app = new_app(vec![mock_command("artisan cache:clear")], Vec::new());
    app.query = "/init".to_string();
    app.query_cursor = app.query.chars().count();
    app.refresh_filtered();

    let action = app.on_search_key(plain(KeyCode::Enter));
    assert!(matches!(action, UiAction::Idle));
    assert!(matches!(app.mode, Mode::InternalPrompt(_)));
}

fn force_flag_command() -> CommandEntry {
    let mut command = mock_command("deploy");
    command.template = "deploy {{force}}".to_string();
    command.params = vec![ParamSpec {
        name: "force".to_string(),
        kind: ParamType::Flag,
        prompt: "Use --force?".to_string(),
        placeholder: None,
        default_value: None,
        value_value: None,
        default_flag: Some(false),
        value_flag: None,
        required: false,
        prompt_in_tui: true,
    }];
    command
}

#[test]
fn flag_param_prompt_uses_default_on_enter() {
    let mut app = new_app(vec![force_flag_command()], Vec::new());
    let action = app.prepare_selected_command(true);
    assert!(matches!(action, UiAction::Idle));
    assert!(matches!(app.mode, Mode::Prompt(_)));

    let action = app.on_prompt_key(plain(KeyCode::Enter));
    let UiAction::Run(request) = action else {
        panic!("expected command run request");
    };
    assert_eq!(request.command_line.trim(), "deploy");
}

#[test]
fn flag_param_prompt_accepts_y_without_enter() {
    let mut app = new_app(vec![force_flag_command()], Vec::new());
    let action = app.prepare_selected_command(true);
    assert!(matches!(action, UiAction::Idle));
    assert!(matches!(app.mode, Mode::Prompt(_)));

    let action = app.on_prompt_key(plain(KeyCode::Char('y')));
    let UiAction::Run(request) = action else {
        panic!("expected command run request");
    };
    assert_eq!(request.command_line.trim(), "deploy --force");
}

#[test]
fn slash_query_only_shows_internal_commands() {
    let mut app = new_app(vec![mock_command("artisan cache:clear")], Vec::new());
    app.query = "/".to_string();
    app.refresh_filtered();

    assert!(!app.filtered.is_empty());
    assert!(app.filtered.iter().all(|item| matches!(item, SearchItem::Internal(_))));
}
