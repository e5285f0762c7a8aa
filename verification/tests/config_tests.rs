use git_tidy::config::{load_config, merge_config, parse_duration, Config, ProtectedBranches};
use git_tidy::pipeline::is_branch_protected;

#[test]
fn test_config_new() {
    let config = Config::new();

    let branches = config.get_protected_branches();
    assert!(branches.contains(&"master".to_string()));
    assert!(branches.contains(&"develop".to_string()));
    assert!(branches.contains(&"main".to_string()));
}

#[test]
fn test_is_protected_exact_match() {
    let mut config = Config::new();
    config.protected_branches.additional = Some(vec!["staging".to_string()]);

    assert!(
        config
            .get_protected_branches()
            .contains(&"staging".to_string())
    );
}

#[test]
fn test_is_protected_glob_pattern() {
    let mut config = Config::new();
    config.protected_branches.additional = Some(vec!["release/*".to_string()]);

    assert!(config.is_protected("release/1.0.0"));
    assert!(config.is_protected("release/2.0.0"));
    assert!(!config.is_protected("release"));
    assert!(!config.is_protected("feature/test"));
}

#[test]
fn test_invalid_glob_entry_stays_literal() {
    let mut config = Config::new();
    // "[*" holds a wildcard but is no valid glob pattern: it protects
    // nothing as a pattern and keeps protecting its literal name.
    config.protected_branches.additional = Some(vec!["[*".to_string()]);

    assert_eq!(config.get_glob_patterns().len(), 0);
    assert!(!config.is_protected("x"));
    assert!(is_branch_protected(&config, None, &None, "[*").unwrap());
    assert!(!is_branch_protected(&config, None, &None, "x").unwrap());
}

#[test]
fn test_is_protected_regex_pattern() {
    let mut config = Config::new();
    config.protected_branches.patterns = Some(vec![r"^feature/.*-wip$".to_string()]);

    let patterns = config.get_protected_patterns().unwrap();
    assert_eq!(patterns, vec![r"^feature/.*-wip$".to_string()]);
    assert!(is_branch_protected(&config, None, &None, "feature/auth-wip").unwrap());
    assert!(is_branch_protected(&config, None, &None, "feature/api-wip").unwrap());
    assert!(!is_branch_protected(&config, None, &None, "feature/auth").unwrap());
    assert!(!is_branch_protected(&config, None, &None, "bugfix/login").unwrap());
}

#[test]
fn test_invalid_regex_pattern_is_config_error() {
    let mut config = Config::new();
    config.protected_branches.patterns = Some(vec!["(unclosed".to_string()]);

    let result = config.get_protected_patterns();
    assert!(result.is_err());
    let message = result.unwrap_err().message();
    assert_eq!(message, "Configuration error: Invalid regex '(unclosed'");
}

#[test]
fn test_get_glob_patterns() {
    let mut config = Config::new();
    config.protected_branches.additional = Some(vec![
        "release/*".to_string(),
        "hotfix/*".to_string(),
        "master".to_string(),
    ]);

    let patterns = config.get_glob_patterns();
    assert_eq!(patterns.len(), 2);
    assert!(config.is_protected("release/1.0.0"));
    assert!(config.is_protected("hotfix/critical"));
}

#[test]
fn test_merge_config() {
    let mut base = Config::new();
    let overlay = Config {
        protected_branches: ProtectedBranches {
            defaults: Some(vec!["production".to_string()]),
            additional: Some(vec!["staging".to_string()]),
            patterns: Some(vec![r"^feature/.*-wip$".to_string()]),
        },
    };

    merge_config(&mut base, &overlay);

    assert_eq!(
        base.protected_branches.defaults,
        Some(vec!["production".to_string()])
    );
    assert!(base.protected_branches.additional.is_some());
    assert!(
        base.protected_branches
            .additional
            .as_ref()
            .unwrap()
            .contains(&"staging".to_string())
    );
    assert!(base.protected_branches.patterns.is_some());
}

#[test]
fn test_merge_config_deduplicates() {
    let mut base = Config::new();
    base.protected_branches.additional = Some(vec!["staging".to_string(), "uat".to_string()]);
    let overlay = Config {
        protected_branches: ProtectedBranches {
            defaults: None,
            additional: Some(vec!["staging".to_string(), "qa".to_string()]),
            patterns: None,
        },
    };

    merge_config(&mut base, &overlay);

    assert_eq!(
        base.protected_branches.additional,
        Some(vec![
            "staging".to_string(),
            "uat".to_string(),
            "qa".to_string()
        ])
    );
}

#[test]
fn test_load_config_layering() {
    let global = Config {
        protected_branches: ProtectedBranches {
            defaults: Some(vec!["production".to_string()]),
            additional: Some(vec!["staging".to_string()]),
            patterns: None,
        },
    };
    let project = Config {
        protected_branches: ProtectedBranches {
            defaults: None,
            additional: Some(vec!["uat".to_string()]),
            patterns: Some(vec!["^wip/".to_string()]),
        },
    };

    let resolved = load_config(Some(global), Some(project));

    assert_eq!(
        resolved.protected_branches.defaults,
        Some(vec!["production".to_string()])
    );
    assert_eq!(
        resolved.protected_branches.additional,
        Some(vec!["staging".to_string(), "uat".to_string()])
    );
    assert_eq!(
        resolved.protected_branches.patterns,
        Some(vec!["^wip/".to_string()])
    );

    let untouched = load_config(None, None);
    assert_eq!(
        untouched.protected_branches.defaults,
        Some(vec![
            "master".to_string(),
            "develop".to_string(),
            "main".to_string()
        ])
    );
    assert_eq!(untouched.protected_branches.additional, None);
    assert_eq!(untouched.protected_branches.patterns, None);
}

#[test]
fn test_parse_duration() {
    assert_eq!(parse_duration("30s").unwrap(), 30);
    assert_eq!(parse_duration("15m").unwrap(), 15 * 60);
    assert_eq!(parse_duration("2h").unwrap(), 2 * 3600);
    assert_eq!(parse_duration("30d").unwrap(), 30 * 86400);
    assert_eq!(parse_duration("4w").unwrap(), 4 * 604800);
}

#[test]
fn test_parse_duration_invalid() {
    assert!(parse_duration("30x").is_err());
    assert!(parse_duration("abc").is_err());
    assert!(parse_duration("").is_err());
}

#[test]
fn test_parse_duration_messages() {
    assert_eq!(
        parse_duration("5").unwrap_err(),
        "Invalid duration: '5'. Expected format like '30d'"
    );
    assert_eq!(parse_duration("abc").unwrap_err(), "Invalid number: ab");
    assert_eq!(
        parse_duration("30x").unwrap_err(),
        "Invalid unit: x. Use s, m, h, d, or w"
    );
    assert_eq!(parse_duration("  30d  ").unwrap(), 30 * 86400);
    assert_eq!(parse_duration("-2d").unwrap(), -2 * 86400);
    assert!(parse_duration("9223372036854775807w").is_err());
}
