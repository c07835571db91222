use fzc::config::{
    ArtisanProviderConfig, ComposerProviderConfig, ConfigProviderConfig, JustfileProviderConfig,
    ProvidersConfig,
};
use fzc::provider::{
    build_just_command_template, composer_entries, expand_home_shorthand, parse_artisan_commands,
    parse_artisan_descriptions_json, parse_composer_scripts_json, parse_just_recipes,
    shell_escape_arg, tokenize_provider_options,
};

#[test]
fn parses_and_filters_artisan_raw_output() {
    let input = "about\nlist\n_foo\ncache:clear [store] [--tags[=TAGS]]\n\nmigrate:fresh {--seed}\n";
    let commands = parse_artisan_commands(input);

    assert_eq!(commands, vec!["about", "cache:clear", "list", "migrate:fresh"]);
}

#[test]
fn parses_artisan_command_descriptions_from_json() {
    let input = r#"{
  "commands": [
    { "name": "about", "description": "Display basic information about your application" },
    { "name": "cache:clear", "description": "Flush the application cache" }
  ]
}"#;
    let descriptions = parse_artisan_descriptions_json(input);
    let found = descriptions.iter().find(|(name, _)| name == "cache:clear").map(|(_, d)| d.as_str());
    assert_eq!(found, Some("Flush the application cache"));
}

#[test]
fn parses_just_summary_output() {
    let input = "build check\n_ignored\nAvailable recipes:\nlint -- some description\nmodx::task\n";
    let recipes = parse_just_recipes(input);
    assert_eq!(recipes, vec!["build", "check", "lint", "modx::task"]);
}

#[test]
fn expands_home_shorthand_path() {
    let home = std::path::PathBuf::from("/home/me");
    let expanded = expand_home_shorthand("~/nix/justfile", &Some("/home/me".to_string())).unwrap();
    assert_eq!(std::path::PathBuf::from(expanded), home.join("nix/justfile"));
}

#[test]
fn tokenizes_provider_options_string_values() {
    let tokens = tokenize_provider_options(&vec![
        "--working-directory .".to_string(),
        "--unstable".to_string(),
    ]);
    assert_eq!(
        tokens,
        vec!["--working-directory".to_string(), ".".to_string(), "--unstable".to_string()]
    );
}

#[test]
fn builds_just_command_template_with_options() {
    let template = build_just_command_template(
        "/tmp/justfile",
        &vec!["--working-directory".to_string(), ".".to_string()],
        "build",
    );
    assert!(template.starts_with("just --working-directory ."));
    assert!(template.contains("--justfile"));
    assert!(template.ends_with(" build"));
}

#[test]
fn shell_escape_arg_keeps_plain_flags_unquoted() {
    assert_eq!(shell_escape_arg("--working-directory"), "--working-directory");
    assert_eq!(shell_escape_arg("."), ".");
    assert_eq!(shell_escape_arg("modx::task"), "modx::task");
    assert_eq!(shell_escape_arg("path with space"), "'path with space'");
}

#[test]
fn parses_composer_scripts_from_json() {
    let raw = r#"{
  "scripts": {
    "test": "phpunit",
    "qa": ["phpstan", "phpunit"],
    "_private": "echo hidden"
  }
}"#;
    let scripts = parse_composer_scripts_json(raw);
    assert_eq!(scripts, vec!["qa".to_string(), "test".to_string()]);
}

#[test]
fn loads_composer_basic_and_script_commands() {
    let root = "/tmp/fzc-provider-test-composer".to_string();
    let scripts = parse_composer_scripts_json(r#"{"scripts":{"test":"phpunit","qa":"phpstan"}}"#);
    let commands = composer_entries(&scripts, &root);

    assert!(commands.iter().any(|command| command.name == "composer install"));
    assert!(commands.iter().any(|command| command.name == "composer script:test"));
    assert!(commands.iter().all(|command| command.working_dir.as_ref() == Some(&root)));
}

#[test]
fn rejects_duplicate_provider_aliases() {
    let providers = ProvidersConfig {
        config: ConfigProviderConfig { enabled: false, alias: None },
        artisan: ArtisanProviderConfig { enabled: true, alias: Some("x".to_string()) },
        composer: ComposerProviderConfig { enabled: true, alias: Some("x".to_string()) },
        justfile: JustfileProviderConfig {
            enabled: true,
            path: "justfile".to_string(),
            options: Vec::new(),
            alias: Some("j".to_string()),
        },
    };
    let err = providers.alias_map().unwrap_err().message();
    assert!(err.contains("duplicated"));
}
