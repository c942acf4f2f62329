use aaa::error::ConfigError;
use aaa::session::{menu_label, menu_labels, resolve_profile, selection_profile_name, shell_command, shell_env};
use aaa::store::load_profiles;

#[test]
fn shell_falls_back_to_bash() {
    assert_eq!(shell_command(None), "/bin/bash");
    assert_eq!(shell_command(Some("/usr/bin/zsh")), "/usr/bin/zsh");
}

#[test]
fn shell_env_overlays_credentials_and_prompt() {
    let creds: Vec<(String, String)> = vec![
        ("AWS_ACCESS_KEY_ID".to_string(), "AKIA123".to_string()),
        ("AWS_PROFILE".to_string(), "dev".to_string()),
    ];
    let env = shell_env("dev", &creds, Some("/usr/bin"), Some("/home/u"), None, Some("% "));
    let expected: Vec<(String, String)> = vec![
        ("AWS_ACCESS_KEY_ID".to_string(), "AKIA123".to_string()),
        ("AWS_PROFILE".to_string(), "dev".to_string()),
        ("PATH".to_string(), "/usr/bin".to_string()),
        ("HOME".to_string(), "/home/u".to_string()),
        ("PS1".to_string(), "(aws:dev) % ".to_string()),
    ];
    assert_eq!(env, expected);
}

#[test]
fn shell_env_uses_default_prompt_when_unset() {
    let creds: Vec<(String, String)> = Vec::new();
    let env = shell_env("dev", &creds, None, None, None, None);
    let expected: Vec<(String, String)> = vec![("PS1".to_string(), "(aws:dev) \\$ ".to_string())];
    assert_eq!(env, expected);
}

#[test]
fn menu_label_shows_name_and_kind() {
    let profiles = load_profiles(
        "[profile dev]\nregion = us-east-1\n[profile corp]\nsso_start_url = https://x\n[profile fed]\nokta_org_domain = o.okta.com\n",
    )
    .unwrap();
    assert_eq!(menu_label(&profiles[0]), "   dev [Standard]");
    assert_eq!(menu_label(&profiles[1]), "   corp [SSO]");
    assert_eq!(menu_label(&profiles[2]), "   fed [Okta]");
    let labels = menu_labels(&profiles);
    assert_eq!(labels.len(), 3);
    assert_eq!(labels[2], "   fed [Okta]");
}

#[test]
fn selection_name_strips_padding_and_tag() {
    assert_eq!(selection_profile_name("   dev [Standard]"), "dev");
    assert_eq!(selection_profile_name("corp [SSO]"), "corp");
    assert_eq!(selection_profile_name("  plain  "), "plain");
}

#[test]
fn resolve_profile_finds_first_match() {
    let profiles = load_profiles("[profile a]\n[profile b]\n").unwrap();
    assert_eq!(resolve_profile(&profiles, "b").unwrap(), 1);
}

#[test]
fn resolve_unknown_profile_names_it_in_the_message() {
    let profiles = load_profiles("[profile a]\n").unwrap();
    let r = resolve_profile(&profiles, "nope");
    match r {
        Err(e @ ConfigError::ProfileNotFound(_)) => {
            let msg = e.message();
            assert!(msg.contains("nope"));
            assert_eq!(msg, "Profile 'nope' not found");
        },
        _ => panic!("expected a profile-not-found error"),
    }
}
