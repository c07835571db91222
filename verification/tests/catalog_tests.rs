use fzc::catalog::{
    command_from_config, decide_scope, literal_as_bool, literal_as_string, matches_scope,
    matches_special_scope, param_from_config, parse_bool_string, scope_match_candidates,
    CommandCatalog, ScopeError,
};
use fzc::config::{
    load, ArtisanProviderConfig, CommandConfig, ComposerProviderConfig, Config,
    ConfigProviderConfig, JustfileProviderConfig, LoadedConfig, ParamConfig, ParamLiteralConfig,
    ParamTypeConfig, ProvidersConfig, RankingConfig,
};
use fzc::model::{CommandSource, ParamType};
use fzc::provider::{
    artisan_entries, is_shell_safe_arg, just_entries, load_provider_commands,
    parse_artisan_commands, parse_composer_scripts_json, parse_just_recipes, shell_escape_arg,
    shell_escape_single_quoted, ArtisanFinding, JustFinding, ProviderFindings,
};

fn param(name: &str, kind: ParamTypeConfig) -> ParamConfig {
    ParamConfig {
        name: name.to_string(),
        kind,
        prompt: None,
        placeholder: None,
        default: None,
        value: None,
        required: false,
    }
}

fn command(name: &str, scopes: &[&str]) -> CommandConfig {
    CommandConfig {
        name: name.to_string(),
        run: format!("run {name}"),
        description: None,
        scopes: scopes.iter().map(|s| s.to_string()).collect(),
        params: Vec::new(),
        working_dir: None,
    }
}

fn providers(a: Option<&str>, co: Option<&str>, j: Option<&str>) -> ProvidersConfig {
    ProvidersConfig {
        config: ConfigProviderConfig { enabled: true, alias: None },
        artisan: ArtisanProviderConfig { enabled: true, alias: a.map(str::to_string) },
        composer: ComposerProviderConfig { enabled: true, alias: co.map(str::to_string) },
        justfile: JustfileProviderConfig {
            enabled: true,
            path: "justfile".to_string(),
            options: vec!["--unstable  -q".to_string()],
            alias: j.map(str::to_string),
        },
    }
}

#[test]
fn aliases_are_cleaned_and_listed_in_order() {
    let map = providers(Some(" :A "), Some("co"), Some("J")).alias_map().unwrap();
    assert_eq!(
        map,
        vec![
            ("a".to_string(), "artisan".to_string()),
            ("co".to_string(), "composer".to_string()),
            ("j".to_string(), "justfile".to_string()),
        ]
    );
    assert!(providers(None, None, None).alias_map().unwrap().is_empty());
}

#[test]
fn empty_alias_is_refused() {
    let err = providers(Some(" :: "), None, None).alias_map().unwrap_err();
    assert_eq!(err.message(), "provider alias for 'artisan' cannot be empty");
}

#[test]
fn duplicate_alias_names_both_providers() {
    let err = providers(Some("x"), None, Some(":X")).alias_map().unwrap_err();
    assert_eq!(
        err.message(),
        "provider alias ':x' is duplicated between 'artisan' and 'justfile'"
    );
}

#[test]
fn defaults_of_the_configuration() {
    let loaded = load(None);
    assert!(loaded.path.is_none());
    assert!(loaded.config.commands.is_empty());
    assert!(loaded.config.ranking.usage_enabled);
    assert_eq!(loaded.config.ranking.usage_weight, 8_000);
    assert!(!loaded.config.providers.artisan.enabled);
    assert_eq!(loaded.config.providers.justfile.path, "justfile");
    assert_eq!(RankingConfig::default().usage_weight, 8_000);

    let found = load(Some(("/x/fzc.toml".to_string(), Config::default())));
    assert_eq!(found.path.as_deref(), Some("/x/fzc.toml"));
}

#[test]
fn words_for_truth_values() {
    for yes in ["true", " T ", "1", "YES", "y", "on"] {
        assert_eq!(parse_bool_string(yes), Some(true));
    }
    for no in ["false", "f", "0", "No", "n", "OFF"] {
        assert_eq!(parse_bool_string(no), Some(false));
    }
    assert_eq!(parse_bool_string(""), None);
    assert_eq!(parse_bool_string("maybe"), None);
    assert_eq!(literal_as_string(&Some(ParamLiteralConfig::Bool(true))).as_deref(), Some("true"));
    assert_eq!(
        literal_as_string(&Some(ParamLiteralConfig::String("x".to_string()))).as_deref(),
        Some("x")
    );
    assert_eq!(literal_as_string(&None), None);
    assert_eq!(literal_as_bool(&Some(ParamLiteralConfig::String("Yes".to_string()))), Some(true));
    assert_eq!(literal_as_bool(&Some(ParamLiteralConfig::String("x".to_string()))), None);
    assert_eq!(literal_as_bool(&Some(ParamLiteralConfig::Bool(false))), Some(false));
}

#[test]
fn configured_parameters_become_specs() {
    let mut value = param("env", ParamTypeConfig::Value);
    value.default = Some(ParamLiteralConfig::String("staging".to_string()));
    let spec = param_from_config(&value);
    assert_eq!(spec.prompt, "env:");
    assert!(matches!(spec.kind, ParamType::Value));
    assert_eq!(spec.default_value.as_deref(), Some("staging"));
    assert_eq!(spec.default_flag, None);
    assert!(!spec.prompt_in_tui);
    assert!(!spec.requires_input());

    let mut flag = param("force", ParamTypeConfig::Flag);
    flag.default = Some(ParamLiteralConfig::Bool(false));
    let spec = param_from_config(&flag);
    assert_eq!(spec.prompt, "Enable --force?");
    assert!(matches!(spec.kind, ParamType::Flag));
    assert_eq!(spec.default_flag, Some(false));
    assert_eq!(spec.default_value.as_deref(), Some("false"));
    assert!(spec.requires_input());
    assert_eq!(spec.flag_token(), "--force");

    let mut dashed = param("-v", ParamTypeConfig::Flag);
    dashed.prompt = Some("Verbose?".to_string());
    dashed.value = Some(ParamLiteralConfig::Bool(true));
    let spec = param_from_config(&dashed);
    assert_eq!(spec.prompt, "Verbose?");
    assert!(spec.prompt_in_tui);
    assert_eq!(spec.value_flag, Some(true));
    assert!(!spec.requires_input());
    assert_eq!(spec.flag_token(), "-v");
    assert_eq!(param_from_config(&param("-q", ParamTypeConfig::Flag)).prompt, "Enable -q?");
}

#[test]
fn configured_commands_become_entries() {
    let mut config = command("Deploy", &[]);
    config.description = Some("ship".to_string());
    config.params = vec![param("env", ParamTypeConfig::Value)];
    config.working_dir = Some("/abs/dir".to_string());
    let entry = command_from_config(&config, "/work");
    assert_eq!(entry.name, "Deploy");
    assert_eq!(entry.template, "run Deploy");
    assert_eq!(entry.description.as_deref(), Some("ship"));
    assert!(matches!(entry.source, CommandSource::Config));
    assert_eq!(entry.params.len(), 1);
    assert_eq!(entry.working_dir.as_deref(), Some("/abs/dir"));

    config.working_dir = Some("sub".to_string());
    let entry = command_from_config(&config, "/work");
    assert_eq!(entry.working_dir.map(std::path::PathBuf::from), Some("/work/sub".into()));

    config.working_dir = None;
    assert_eq!(command_from_config(&config, "/work").working_dir, None);
}

#[test]
fn special_scopes_need_their_project() {
    let root = Some("/p".to_string());
    assert!(matches_special_scope(" Laravel ", &root, &None));
    assert!(matches_special_scope("framework:laravel", &root, &None));
    assert!(!matches_special_scope("laravel", &None, &root));
    assert!(matches_special_scope("tool:composer", &None, &root));
    assert!(!matches_special_scope("composer", &root, &None));
    assert!(!matches_special_scope("**/x", &root, &root));
}

#[test]
fn scope_candidates() {
    let all = scope_match_candidates("/w", &Some("/l".to_string()), &Some("/c".to_string()));
    let paths: Vec<std::path::PathBuf> = all.iter().map(std::path::PathBuf::from).collect();
    let expected: Vec<std::path::PathBuf> = [
        "/w",
        "/l",
        "/l/app",
        "/l/app/__fzc_scope_marker__",
        "/l/artisan",
        "/c",
        "/c/composer.json",
    ]
    .iter()
    .map(std::path::PathBuf::from)
    .collect();
    assert_eq!(paths, expected);
    assert_eq!(scope_match_candidates("/w", &None, &None), vec!["/w".to_string()]);
}

#[test]
fn scopes_decide_in_order() {
    let none: Vec<String> = Vec::new();
    assert!(matches_scope(&none, "/w", &None, &None).unwrap());
    let patterns = vec!["**/other".to_string(), "/w".to_string()];
    assert!(matches_scope(&patterns, "/w", &None, &None).unwrap());
    assert!(!matches_scope(&vec!["**/other".to_string()], "/w", &None, &None).unwrap());

    let globs = vec![Ok(false), Err("bad".to_string()), Ok(true)];
    let patterns = vec!["a".to_string(), "b".to_string(), "c".to_string()];
    let err = decide_scope(&patterns, false, false, &globs).unwrap_err();
    assert!(matches!(&err, ScopeError::InvalidPattern { pattern, message } if pattern == "b" && message == "bad"));
    assert_eq!(err.message(), "invalid scope pattern: b: bad");
    let globs = vec![Ok(false), Ok(true), Err("bad".to_string())];
    assert!(decide_scope(&patterns, false, false, &globs).unwrap());
    let patterns = vec!["a".to_string(), "composer".to_string(), "c".to_string()];
    let globs = vec![Ok(false), Err("never asked".to_string()), Ok(false)];
    assert!(decide_scope(&patterns, false, true, &globs).unwrap());
}

#[test]
fn invalid_glob_is_an_error() {
    let patterns = vec!["a[".to_string()];
    let err = matches_scope(&patterns, "/w", &None, &None).unwrap_err();
    assert!(matches!(&err, ScopeError::InvalidPattern { pattern, .. } if pattern == "a["));
    assert!(err.message().starts_with("invalid scope pattern: a[: "));
}

#[test]
fn overlong_pattern_is_an_error() {
    let patterns = vec!["x".repeat(1025)];
    let err = matches_scope(&patterns, "/w", &None, &None).unwrap_err();
    assert!(matches!(err, ScopeError::PatternTooLong { .. }));
    assert!(err.message().starts_with("scope pattern too long: xxx"));
    let fits = vec!["x".repeat(1024)];
    assert!(!matches_scope(&fits, "/w", &None, &None).unwrap());
}

#[test]
fn catalog_keeps_the_commands_in_scope() {
    let loaded = LoadedConfig {
        config: Config {
            providers: providers(None, None, None),
            ranking: RankingConfig::default(),
            commands: vec![
                command("everywhere", &[]),
                command("elsewhere", &["**/nowhere"]),
                command("here", &["**/w"]),
                command("laravel only", &["laravel"]),
            ],
        },
        path: None,
    };
    let mut catalog = CommandCatalog::from_config(&loaded, "/w", &None, &None).unwrap();
    catalog.extend(CommandCatalog::empty().into_vec());
    let names: Vec<String> = catalog.into_vec().into_iter().map(|c| c.name).collect();
    assert_eq!(names, vec!["everywhere".to_string(), "here".to_string()]);

    let with_laravel =
        CommandCatalog::from_config(&loaded, "/w", &Some("/w".to_string()), &None).unwrap();
    assert_eq!(with_laravel.into_vec().len(), 3);
}

#[test]
fn shell_words() {
    assert!(is_shell_safe_arg("a-b_c.d/e:f=g+h@i%j"));
    assert!(!is_shell_safe_arg(""));
    assert!(!is_shell_safe_arg("a b"));
    assert!(!is_shell_safe_arg("é"));
    assert_eq!(shell_escape_arg(""), "''");
    assert_eq!(shell_escape_arg("it's"), "'it'\\''s'");
    assert_eq!(shell_escape_single_quoted("plain"), "'plain'");
    assert_eq!(shell_escape_single_quoted("''"), "''\\'''\\'''");
}

#[test]
fn listings_are_read_line_by_line() {
    assert_eq!(parse_artisan_commands("  b x\r\na\n_hidden\n a again\n"), vec!["a", "b"]);
    assert!(parse_artisan_commands("").is_empty());
    assert_eq!(
        parse_just_recipes("build, :test: -- rest ignored\nrecipes Available b@d _x\nlint\n"),
        vec!["build", "lint", "test"]
    );
    assert!(parse_just_recipes("Available recipes: a b\n").is_empty());
    assert!(parse_composer_scripts_json("not json").is_empty());
    assert!(parse_composer_scripts_json("{\"scripts\": [1, 2]}").is_empty());
    assert_eq!(
        parse_composer_scripts_json("{\"scripts\": {\" b \": 1, \"a\": 2, \"_c\": 3, \" \": 4}}"),
        vec!["a", "b"]
    );
}

#[test]
fn artisan_descriptions_from_an_object() {
    let raw = r#"{"commands": {"about": {"description": "Show"}, "list": {"description": 7}, "x": 1}}"#;
    let found = fzc::provider::parse_artisan_descriptions_json(raw);
    assert_eq!(
        found,
        vec![
            ("about".to_string(), "Show".to_string()),
            ("list".to_string(), String::new()),
            ("x".to_string(), String::new()),
        ]
    );
    let listed = r#"{"commands": [{"name": "a", "description": "one"}, {"description": "no name"}, {"name": "a", "description": "two"}]}"#;
    assert_eq!(
        fzc::provider::parse_artisan_descriptions_json(listed),
        vec![("a".to_string(), "two".to_string())]
    );
    assert!(fzc::provider::parse_artisan_descriptions_json("[]").is_empty());
    assert!(fzc::provider::parse_artisan_descriptions_json("{").is_empty());
}

#[test]
fn provider_entries() {
    let names = vec!["about".to_string(), "list".to_string()];
    let descriptions =
        vec![("about".to_string(), "Show".to_string()), ("list".to_string(), "  ".to_string())];
    let entries = artisan_entries(&names, &descriptions, "/l");
    assert_eq!(entries[0].name, "artisan about");
    assert_eq!(entries[0].template, "php artisan about --ansi");
    assert_eq!(entries[0].description.as_deref(), Some("Show"));
    assert_eq!(entries[1].description.as_deref(), Some("Laravel artisan command"));
    assert_eq!(entries[1].working_dir.as_deref(), Some("/l"));
    assert!(matches!(entries[1].source, CommandSource::Provider("artisan")));

    let recipes = vec!["build".to_string()];
    let options = vec!["--set".to_string(), "a b".to_string()];
    let entries = just_entries(&recipes, "/w/just file", &options, "/w");
    assert_eq!(entries[0].name, "just build");
    assert_eq!(entries[0].template, "just --set 'a b' --justfile '/w/just file' build");
    assert_eq!(entries[0].description.as_deref(), Some("just recipe"));

    let config = providers(None, None, None);
    let found = ProviderFindings {
        artisan: Some(ArtisanFinding { root: "/l".to_string(), names, descriptions }),
        composer: None,
        justfile: Some(JustFinding {
            path: "/w/justfile".to_string(),
            cwd: "/w".to_string(),
            recipes,
        }),
    };
    let all = load_provider_commands(&config, &found);
    let names: Vec<&str> = all.iter().map(|c| c.name.as_str()).collect();
    assert_eq!(names, vec!["artisan about", "artisan list", "just build"]);
    assert_eq!(all[2].template, "just --unstable -q --justfile /w/justfile build");

    let mut off = providers(None, None, None);
    off.artisan.enabled = false;
    off.justfile.enabled = false;
    assert!(load_provider_commands(&off, &found).is_empty());
}

#[test]
fn deeply_nested_pattern_is_an_error() {
    let nested = format!("{}a{}", "{".repeat(300), "}".repeat(300));
    let err = matches_scope(&vec![nested], "/w", &None, &None).unwrap_err();
    assert!(matches!(err, ScopeError::PatternTooLong { .. }));

    let shallow = format!("{}w{}", "{".repeat(32), "}".repeat(32));
    assert!(!fzc::catalog::glob_pattern_fits(&format!("{{{shallow}}}")));
    assert!(fzc::catalog::glob_pattern_fits(&shallow));
    assert!(matches_scope(&vec![format!("/{shallow}")], "/w", &None, &None).unwrap());
}
