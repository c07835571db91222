use fzc::catalog::matches_scope;
use fzc::model::render_template;

#[test]
fn template_replacement_works() {
    let params = vec![
        ("env".to_string(), "production".to_string()),
        ("region".to_string(), "us-east-1".to_string()),
    ];

    let rendered = render_template("deploy --env={{env}} --region={{region}}", &params);
    assert_eq!(rendered, "deploy --env=production --region=us-east-1");
}

#[test]
fn scope_matching_works() {
    let patterns = vec!["**/laravel-app".to_string()];
    assert!(matches_scope(&patterns, "/Users/me/projects/laravel-app", &None, &None).unwrap());
}

#[test]
fn laravel_literal_scope_matches_when_artisan_exists() {
    let root = "/tmp/fzc-scope-test-laravel".to_string();
    let patterns = vec!["laravel".to_string()];
    assert!(matches_scope(&patterns, &root, &Some(root.clone()), &None).unwrap());
}

#[test]
fn composer_literal_scope_matches_when_composer_exists() {
    let root = "/tmp/fzc-scope-test-composer".to_string();
    let patterns = vec!["composer".to_string()];
    assert!(matches_scope(&patterns, &root, &None, &Some(root.clone())).unwrap());
}

#[test]
fn init_app_glob_scope_matches_laravel_root() {
    let root = "/tmp/fzc-scope-test-app".to_string();
    let patterns = vec!["**/app/**".to_string()];
    assert!(matches_scope(&patterns, &root, &Some(root.clone()), &None).unwrap());
}
