use fzc::model::{CommandEntry, CommandSource};
use fzc::rank::{
    score_command_match, score_with_fuzzy, terms_contiguous, terms_in_order, token_match_quality,
    tokenize_for_match,
};
use fzc::search::{
    command_provider_name, command_usage_key, find_results, parse_query_provider_filter,
    provider_names_without_alias, usage_boost_of, RankingSettings, SearchItem,
};

fn entry(name: &str, description: Option<&str>, provider: &'static str) -> CommandEntry {
    CommandEntry {
        name: name.to_string(),
        description: description.map(str::to_string),
        template: name.to_string(),
        params: Vec::new(),
        source: CommandSource::Provider(provider),
        working_dir: None,
    }
}

fn words(list: &[&str]) -> Vec<String> {
    list.iter().map(|w| w.to_string()).collect()
}

fn ranking() -> RankingSettings {
    RankingSettings { usage_enabled: true, usage_weight: 8_000 }
}

fn names(commands: &[CommandEntry], items: &[SearchItem]) -> Vec<String> {
    items
        .iter()
        .map(|item| match item {
            SearchItem::Command(index) => commands[*index].name.clone(),
            SearchItem::Internal(index) => format!("internal {index}"),
        })
        .collect()
}

#[test]
fn tokens_are_lowercase_alphanumeric_runs() {
    assert_eq!(tokenize_for_match("Artisan cache:CLEAR"), words(&["artisan", "cache", "clear"]));
    assert_eq!(tokenize_for_match("  --a__b1  "), words(&["a", "b1"]));
    assert_eq!(tokenize_for_match("ÄPFEL-straße"), words(&["äpfel", "straße"]));
    assert!(tokenize_for_match("::--").is_empty());
    assert!(tokenize_for_match("").is_empty());
}

#[test]
fn token_quality() {
    assert_eq!(token_match_quality("cache", "cache"), 2);
    assert_eq!(token_match_quality("cache", "cac"), 1);
    assert_eq!(token_match_quality("cache", "ach"), 1);
    assert_eq!(token_match_quality("cache", "clear"), 0);
    assert_eq!(token_match_quality("cache", ""), 1);
    assert_eq!(token_match_quality("", ""), 2);
}

#[test]
fn terms_in_query_order() {
    let name = words(&["artisan", "cache", "clear"]);
    assert!(terms_in_order(&name, &words(&["cache", "clear"])));
    assert!(terms_in_order(&name, &words(&["art", "clear"])));
    assert!(!terms_in_order(&name, &words(&["clear", "cache"])));
    assert!(!terms_in_order(&name, &words(&[])));
    assert!(!terms_in_order(&name, &words(&["cache", "cache"])));
}

#[test]
fn terms_in_a_contiguous_run() {
    let name = words(&["artisan", "cache", "clear"]);
    assert!(terms_contiguous(&name, &words(&["cache", "clear"])));
    assert!(terms_contiguous(&name, &words(&["artisan"])));
    assert!(!terms_contiguous(&name, &words(&["artisan", "clear"])));
    assert!(!terms_contiguous(&name, &words(&[])));
    assert!(!terms_contiguous(&name, &words(&["a", "b", "c", "d"])));
}

#[test]
fn composite_score_adds_up() {
    let command = entry("artisan cache:clear", None, "artisan");
    let score = score_with_fuzzy(10, &words(&["cache", "clear"]), &command).unwrap();
    // fuzzy 100, two exact hits 24000, coverage 20000, all terms in the name
    // 35000, in order 10000, contiguous 10000, phrase 15000
    assert_eq!(score.total, 114_100);
    assert_eq!(score.fuzzy, 10);

    let reversed = score_with_fuzzy(10, &words(&["clear", "cache"]), &command).unwrap();
    // as above without order, run and phrase
    assert_eq!(reversed.total, 79_100);

    let partial = score_with_fuzzy(0, &words(&["cac"]), &command).unwrap();
    // one partial hit 6000, coverage 10000, all in name 35000, order 10000,
    // run 10000, phrase 15000
    assert_eq!(partial.total, 86_000);
}

#[test]
fn description_hits_count_for_less() {
    let command = entry("deploy", Some("ship the release"), "config");
    let score = score_with_fuzzy(0, &words(&["release"]), &command).unwrap();
    // coverage 10000 and description 2500
    assert_eq!(score.total, 12_500);
}

#[test]
fn best_match_in_the_name_decides() {
    let command = entry("cachex cache", None, "config");
    let score = score_with_fuzzy(0, &words(&["cache"]), &command).unwrap();
    // the exact token counts although a partial one stands in front of it:
    // exact 12000, coverage 10000, all in name 35000, order 10000, run 10000,
    // phrase 15000
    assert_eq!(score.total, 92_000);
}

#[test]
fn candidate_without_any_match_is_left_out() {
    let command = entry("deploy", Some("ship it"), "config");
    assert!(score_with_fuzzy(0, &words(&["zzz"]), &command).is_none());
    assert!(score_with_fuzzy(1, &words(&["zzz"]), &command).is_some());
}

#[test]
fn query_without_terms_scores_ten_times_fuzzy() {
    let command = entry("deploy", None, "config");
    let score = score_with_fuzzy(7, &words(&[]), &command).unwrap();
    assert_eq!(score.total, 70);
    let none = score_with_fuzzy(0, &words(&[]), &command).unwrap();
    assert_eq!(none.total, 0);
}

#[test]
fn score_is_held_within_sixty_four_bits() {
    let command = entry("deploy", None, "config");
    let score = score_with_fuzzy(i64::MAX, &words(&["deploy"]), &command).unwrap();
    assert_eq!(score.total, i64::MAX);
    let low = score_with_fuzzy(i64::MIN, &words(&[]), &command).unwrap();
    assert_eq!(low.total, i64::MIN);
}

#[test]
fn fuzzy_matcher_is_asked() {
    let command = entry("artisan cache:clear", None, "artisan");
    let terms = tokenize_for_match("acc");
    let hit = score_command_match("acc", &terms, &command).unwrap();
    assert!(hit.fuzzy > 0);
    assert_eq!(hit.total, hit.fuzzy * 10);

    let terms = tokenize_for_match("xyz");
    assert!(score_command_match("xyz", &terms, &command).is_none());

    let terms = tokenize_for_match("CACHE");
    let upper = score_command_match("CACHE", &terms, &command).unwrap();
    assert!(upper.fuzzy > 0);
}

#[test]
fn usage_boost_formula() {
    assert_eq!(usage_boost_of(ranking(), 5), 40_000);
    assert_eq!(usage_boost_of(ranking(), 0), 0);
    assert_eq!(usage_boost_of(RankingSettings { usage_enabled: false, usage_weight: 8_000 }, 5), 0);
    assert_eq!(usage_boost_of(RankingSettings { usage_enabled: true, usage_weight: -3 }, 5), 0);
    assert_eq!(
        usage_boost_of(RankingSettings { usage_enabled: true, usage_weight: i64::MAX }, u64::MAX),
        i64::MAX
    );
}

#[test]
fn usage_key_names_provider_and_command() {
    let command = entry("artisan cache:clear", None, "artisan");
    assert_eq!(command_usage_key(&command), "artisan::artisan cache:clear");
    assert_eq!(command_provider_name(&command), "artisan");
    let own = CommandEntry { source: CommandSource::Config, ..entry("build", None, "x") };
    assert_eq!(command_usage_key(&own), "config::build");
}

#[test]
fn empty_query_orders_by_usage_then_name() {
    let commands = vec![
        entry("beta", None, "config"),
        entry("Alpha", None, "config"),
        entry("gamma", None, "config"),
    ];
    let usage = vec![("config::gamma".to_string(), 2u64)];
    let items = find_results(&commands, "", &Vec::new(), &usage, ranking());
    assert_eq!(names(&commands, &items), vec!["gamma", "Alpha", "beta"]);

    let off = RankingSettings { usage_enabled: false, usage_weight: 8_000 };
    let items = find_results(&commands, "", &Vec::new(), &usage, off);
    assert_eq!(names(&commands, &items), vec!["Alpha", "beta", "gamma"]);
}

#[test]
fn equal_candidates_keep_their_order() {
    let commands = vec![entry("same", None, "config"), entry("same", None, "config")];
    let items = find_results(&commands, "", &Vec::new(), &Vec::new(), ranking());
    assert_eq!(items, vec![SearchItem::Command(0), SearchItem::Command(1)]);
}

#[test]
fn filtering_twice_gives_the_same_results() {
    let commands = vec![
        entry("artisan cache:clear", Some("Flush the cache"), "artisan"),
        entry("artisan cache:table", None, "artisan"),
        entry("just build", None, "justfile"),
    ];
    let aliases = vec![("a".to_string(), "artisan".to_string())];
    let first = find_results(&commands, "cache", &aliases, &Vec::new(), ranking());
    let second = find_results(&commands, "cache", &aliases, &Vec::new(), ranking());
    assert_eq!(first, second);
    assert_eq!(first.len(), 2);
}

#[test]
fn alias_selects_a_provider() {
    let commands = vec![
        entry("artisan cache:clear", None, "artisan"),
        entry("just cache", None, "justfile"),
    ];
    let aliases = vec![("a".to_string(), "artisan".to_string())];
    let items = find_results(&commands, ":A cache", &aliases, &Vec::new(), ranking());
    assert_eq!(names(&commands, &items), vec!["artisan cache:clear"]);

    let all = find_results(&commands, "  :a", &aliases, &Vec::new(), ranking());
    assert_eq!(names(&commands, &all), vec!["artisan cache:clear"]);
}

#[test]
fn provider_name_selects_only_without_alias() {
    let commands = vec![
        entry("artisan cache:clear", None, "artisan"),
        entry("just build", None, "justfile"),
    ];
    let aliases = vec![("a".to_string(), "artisan".to_string())];
    assert_eq!(provider_names_without_alias(&commands, &aliases), vec!["justfile".to_string()]);

    let by_name = find_results(&commands, ":justfile", &aliases, &Vec::new(), ranking());
    assert_eq!(names(&commands, &by_name), vec!["just build"]);

    let aliased = find_results(&commands, ":artisan", &aliases, &Vec::new(), ranking());
    assert!(aliased.is_empty());

    let unknown = find_results(&commands, ":nope build", &aliases, &Vec::new(), ranking());
    assert!(unknown.is_empty());
}

#[test]
fn selector_parts() {
    let aliases = vec![("a".to_string(), "artisan".to_string())];
    let names = vec!["justfile".to_string()];

    let found = parse_query_provider_filter(":a  cache clear", &aliases, &names);
    assert_eq!(found.provider.as_deref(), Some("artisan"));
    assert_eq!(found.rest, "cache clear");
    assert!(!found.unknown);

    let by_name = parse_query_provider_filter(":JustFile", &aliases, &names);
    assert_eq!(by_name.provider.as_deref(), Some("justfile"));
    assert_eq!(by_name.rest, "");

    let unknown = parse_query_provider_filter(":x y", &aliases, &names);
    assert!(unknown.unknown);
    assert_eq!(unknown.provider, None);
    assert_eq!(unknown.rest, "y");

    let bare = parse_query_provider_filter(": cache", &aliases, &names);
    assert_eq!(bare.provider, None);
    assert_eq!(bare.rest, ": cache");
    assert!(!bare.unknown);

    let plain = parse_query_provider_filter("cache", &aliases, &names);
    assert_eq!(plain.provider, None);
    assert_eq!(plain.rest, "cache");
}

#[test]
fn internal_queries_rank_internal_commands() {
    let commands = vec![entry("reload me", None, "config")];
    let all = find_results(&commands, "/", &Vec::new(), &Vec::new(), ranking());
    assert_eq!(all, vec![SearchItem::Internal(0), SearchItem::Internal(1)]);

    // "rel" is a subsequence of both haystacks, and a part of the second only
    let reload = find_results(&commands, "  /rel", &Vec::new(), &Vec::new(), ranking());
    assert_eq!(reload, vec![SearchItem::Internal(1), SearchItem::Internal(0)]);

    let providers = find_results(&commands, "/providers", &Vec::new(), &Vec::new(), ranking());
    assert_eq!(providers, vec![SearchItem::Internal(1)]);

    let none = find_results(&commands, "/zzz", &Vec::new(), &Vec::new(), ranking());
    assert!(none.is_empty());
}
