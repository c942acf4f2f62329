use aaa::error::ConfigError;
use aaa::ini::{parse_line, parse_text, LineToken};
use aaa::okta_yaml::{contains_substring, find_substring, okta_yaml_with_profile, replace_substring};
use aaa::paths::{aws_config_path, aws_credentials_path, okta_settings_path};
use aaa::profile::classify_section;
use aaa::profile::ProfileKind;
use aaa::prompt::new_okta_profile;
use aaa::store::load_profiles;
use aaa::text::{split_lines, str_eq, trim};
use aaa::validate::{is_valid_access_key, is_valid_profile_name, is_valid_region, is_valid_secret_key};

#[test]
fn paths_join_under_home() {
    assert_eq!(aws_config_path("/home/u"), "/home/u/.aws/config");
    assert_eq!(aws_credentials_path("/home/u"), "/home/u/.aws/credentials");
    assert_eq!(okta_settings_path("/home/u"), "/home/u/.okta/okta.yaml");
}

#[test]
fn trim_removes_padding_only() {
    assert_eq!(trim("  a b \t"), "a b");
    assert_eq!(trim(""), "");
    assert_eq!(trim(" \t "), "");
}

#[test]
fn str_eq_compares_contents() {
    assert!(str_eq("abc", "abc"));
    assert!(!str_eq("abc", "abd"));
    assert!(!str_eq("abc", "ab"));
}

#[test]
fn split_lines_keeps_trailing_empty_line() {
    assert_eq!(split_lines("a\nb"), vec!["a", "b"]);
    assert_eq!(split_lines("a\n"), vec!["a", ""]);
    assert_eq!(split_lines(""), vec![""]);
}

#[test]
fn parse_line_shapes() {
    assert!(matches!(parse_line("   "), LineToken::Blank));
    match parse_line(" [profile dev] ") {
        LineToken::Header(n) => assert_eq!(n, "profile dev"),
        _ => panic!("expected a header"),
    }
    match parse_line("key = a = b") {
        LineToken::Pair(k, v) => {
            assert_eq!(k, "key");
            assert_eq!(v, "a = b");
        },
        _ => panic!("expected a pair"),
    }
    assert!(matches!(parse_line("no delimiter"), LineToken::Bad));
}

#[test]
fn validators_accept_and_reject() {
    assert!(is_valid_profile_name("my-profile_2"));
    assert!(!is_valid_profile_name("my profile!"));
    assert!(!is_valid_profile_name(""));
    assert!(is_valid_access_key("AKIA123"));
    assert!(!is_valid_access_key("AKIA-123"));
    assert!(is_valid_secret_key("aB3+/="));
    assert!(!is_valid_secret_key("a b"));
    assert!(is_valid_region("us-east-1"));
    assert!(!is_valid_region("us_east_1"));
}

#[test]
fn classification_region_only_is_standard() {
    let profiles = load_profiles("[profile p]\nregion = us-east-1\n").unwrap();
    assert_eq!(profiles[0].kind, ProfileKind::Standard);
}

#[test]
fn classification_sso_key_wins_in_any_order() {
    let a = load_profiles("[profile p]\nregion = us-east-1\nsso_start_url = https://x\n").unwrap();
    let b = load_profiles("[profile p]\nsso_start_url = https://x\nregion = us-east-1\n").unwrap();
    assert_eq!(a[0].kind, ProfileKind::Sso);
    assert_eq!(b[0].kind, ProfileKind::Sso);
}

#[test]
fn classification_federated_key_wins_over_sso() {
    let text = "[profile p]\nsso_start_url = https://x\nokta_org_domain = o.okta.com\n";
    let profiles = load_profiles(text).unwrap();
    assert_eq!(profiles[0].kind, ProfileKind::Federated);
}

#[test]
fn classify_section_reads_designator_keys() {
    let secs = parse_text("[x]\nregion = r\n").unwrap();
    assert_eq!(classify_section(&secs[0]), ProfileKind::Standard);
}

#[test]
fn substring_search_finds_first_occurrence() {
    assert_eq!(find_substring("abcabc", "bc"), Some(1));
    assert_eq!(find_substring("abc", "zz"), None);
    assert!(contains_substring("awscli:\n", "awscli:"));
    assert!(!contains_substring("aws:\n", "awscli:"));
}

#[test]
fn substring_replacement_is_left_to_right() {
    assert_eq!(replace_substring("aa-aa", "aa", "b"), "b-b");
    assert_eq!(replace_substring("nothing", "zz", "b"), "nothing");
}

#[test]
fn okta_yaml_fresh_scaffold_with_entry() {
    let p = new_okta_profile(
        "fed",
        "my-org.okta.com",
        "0oa5",
        "",
        "",
        "",
        "us-west-2",
        &Vec::new(),
    )
    .unwrap();
    let out = okta_yaml_with_profile(None, &p);
    assert_eq!(
        out,
        "---\nawscli:\n  profiles:\n    fed:\n      org-domain: \"my-org.okta.com\"\n      oidc-client-id: \"0oa5\"\n"
    );
}

#[test]
fn okta_yaml_completes_missing_profiles_key() {
    let p = new_okta_profile("fed", "o.okta.com", "0oa5", "", "", "", "us-west-2", &Vec::new())
        .unwrap();
    let out = okta_yaml_with_profile(Some("---\nawscli:\n"), &p);
    assert!(out.starts_with("---\nawscli:\n  profiles:\n"));
    assert!(out.contains("    fed:\n"));
}

#[test]
fn okta_yaml_replaces_unrelated_scaffold() {
    let p = new_okta_profile("fed", "o.okta.com", "0oa5", "", "", "", "us-west-2", &Vec::new())
        .unwrap();
    let out = okta_yaml_with_profile(Some("something: else\n"), &p);
    assert!(out.starts_with("---\nawscli:\n  profiles:\n"));
}

#[test]
fn okta_yaml_appends_to_complete_file() {
    let existing = "---\nawscli:\n  profiles:\n    old:\n      org-domain: \"a\"\n";
    let p = new_okta_profile("fed", "o.okta.com", "0oa5", "", "", "", "us-west-2", &Vec::new())
        .unwrap();
    let out = okta_yaml_with_profile(Some(existing), &p);
    assert!(out.starts_with(existing));
    assert!(out.ends_with("    fed:\n      org-domain: \"o.okta.com\"\n      oidc-client-id: \"0oa5\"\n"));
}

#[test]
fn error_messages_are_stable() {
    assert_eq!(ConfigError::Parse.message(), "Failed to parse the configuration file");
    assert_eq!(
        ConfigError::DuplicateName("dev".to_string()).message(),
        "Profile 'dev' already exists"
    );
    assert_eq!(ConfigError::LoginFailed.message(), "Authentication failed");
    assert_eq!(ConfigError::ShellExit.message(), "Shell exited with error");
}
