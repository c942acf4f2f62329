use aaa::profile::{Profile, ProfileKind};
use aaa::store::{append_credentials, append_profile, load_profiles, verify_credentials_text};
use aaa::error::ConfigError;

fn standard_profile(name: &str, region: Option<&str>) -> Profile {
    Profile {
        name: name.to_string(),
        kind: ProfileKind::Standard,
        sso_start_url: None,
        sso_region: None,
        sso_account_id: None,
        sso_role_name: None,
        okta_org_domain: None,
        okta_oidc_client_id: None,
        okta_aws_account_federation_app_id: None,
        okta_aws_iam_role: None,
        okta_aws_iam_idp: None,
        region: region.map(|r| r.to_string()),
    }
}

#[test]
fn load_empty_text_yields_no_profiles() {
    let profiles = load_profiles("").unwrap();
    assert_eq!(profiles.len(), 0);
}

#[test]
fn load_blank_text_yields_no_profiles() {
    let profiles = load_profiles("\n  \n\t\n").unwrap();
    assert_eq!(profiles.len(), 0);
}

#[test]
fn load_single_standard_profile() {
    let profiles = load_profiles("[profile dev]\nregion = us-east-1\n").unwrap();
    assert_eq!(profiles.len(), 1);
    assert_eq!(profiles[0].name, "dev");
    assert_eq!(profiles[0].kind, ProfileKind::Standard);
    assert_eq!(profiles[0].region.as_deref(), Some("us-east-1"));
    assert!(profiles[0].sso_start_url.is_none());
}

#[test]
fn load_default_section_keeps_reserved_name() {
    let profiles = load_profiles("[default]\nregion = eu-west-1\n").unwrap();
    assert_eq!(profiles.len(), 1);
    assert_eq!(profiles[0].name, "default");
}

#[test]
fn load_ignores_unrelated_sections() {
    let profiles = load_profiles("[sso-session corp]\nsso_region = us-east-1\n").unwrap();
    assert_eq!(profiles.len(), 0);
}

#[test]
fn load_sso_profile_fields() {
    let text = "[profile corp]\nsso_start_url = https://corp.awsapps.com/start\nsso_region = us-east-1\nsso_account_id = 123456789012\nsso_role_name = PowerUserAccess\nregion = us-east-1\n";
    let profiles = load_profiles(text).unwrap();
    assert_eq!(profiles.len(), 1);
    let p = &profiles[0];
    assert_eq!(p.kind, ProfileKind::Sso);
    assert_eq!(p.sso_start_url.as_deref(), Some("https://corp.awsapps.com/start"));
    assert_eq!(p.sso_region.as_deref(), Some("us-east-1"));
    assert_eq!(p.sso_account_id.as_deref(), Some("123456789012"));
    assert_eq!(p.sso_role_name.as_deref(), Some("PowerUserAccess"));
    assert_eq!(p.region.as_deref(), Some("us-east-1"));
}

#[test]
fn load_federated_profile_fields() {
    let text = "[profile fed]\nokta_org_domain = my-org.okta.com\nokta_oidc_client_id = 0oa5wyqjk6Wm148fE1d7\nregion = us-west-2\n";
    let profiles = load_profiles(text).unwrap();
    assert_eq!(profiles.len(), 1);
    let p = &profiles[0];
    assert_eq!(p.kind, ProfileKind::Federated);
    assert_eq!(p.okta_org_domain.as_deref(), Some("my-org.okta.com"));
    assert_eq!(p.okta_oidc_client_id.as_deref(), Some("0oa5wyqjk6Wm148fE1d7"));
    assert!(p.okta_aws_account_federation_app_id.is_none());
}

#[test]
fn load_rejects_pair_before_header() {
    let r = load_profiles("region = us-east-1\n[profile dev]\n");
    assert!(matches!(r, Err(ConfigError::Parse)));
}

#[test]
fn load_rejects_malformed_line() {
    let r = load_profiles("[profile dev]\nthis line has no delimiter\n");
    assert!(matches!(r, Err(ConfigError::Parse)));
}

#[test]
fn append_to_empty_store_writes_exact_section() {
    let p = standard_profile("dev", Some("us-east-1"));
    let out = append_profile("", &p).unwrap();
    assert_eq!(out, "[profile dev]\nregion = us-east-1\n");
}

#[test]
fn append_adds_separator_when_missing() {
    let p = standard_profile("two", Some("us-west-2"));
    let out = append_profile("[profile one]\nregion = us-east-1", &p).unwrap();
    assert_eq!(out, "[profile one]\nregion = us-east-1\n[profile two]\nregion = us-west-2\n");
}

#[test]
fn append_keeps_existing_trailing_newline() {
    let p = standard_profile("two", Some("us-west-2"));
    let out = append_profile("[profile one]\nregion = us-east-1\n", &p).unwrap();
    assert_eq!(out, "[profile one]\nregion = us-east-1\n[profile two]\nregion = us-west-2\n");
}

#[test]
fn append_duplicate_name_fails() {
    let p = standard_profile("dev", Some("us-east-1"));
    let existing = "[profile dev]\nregion = us-east-1\n";
    let r = append_profile(existing, &p);
    match r {
        Err(ConfigError::DuplicateName(n)) => assert_eq!(n, "dev"),
        _ => panic!("expected a duplicate-name error"),
    }
}

#[test]
fn append_default_profile_uses_bare_header() {
    let p = standard_profile("default", Some("us-east-1"));
    let out = append_profile("", &p).unwrap();
    assert_eq!(out, "[default]\nregion = us-east-1\n");
}

#[test]
fn prefix_names_do_not_collide() {
    let existing = "[profile dev]\nregion = us-east-1\n";
    let p = standard_profile("dev-2", Some("us-east-1"));
    assert!(append_profile(existing, &p).is_ok());

    let existing2 = "[profile dev-2]\nregion = us-east-1\n";
    let p2 = standard_profile("dev", Some("us-east-1"));
    assert!(append_profile(existing2, &p2).is_ok());
}

#[test]
fn round_trip_keeps_every_set_field() {
    let sso = Profile {
        name: "corp".to_string(),
        kind: ProfileKind::Sso,
        sso_start_url: Some("https://corp.awsapps.com/start".to_string()),
        sso_region: Some("us-east-1".to_string()),
        sso_account_id: Some("123456789012".to_string()),
        sso_role_name: Some("PowerUserAccess".to_string()),
        okta_org_domain: None,
        okta_oidc_client_id: None,
        okta_aws_account_federation_app_id: None,
        okta_aws_iam_role: None,
        okta_aws_iam_idp: None,
        region: Some("us-east-1".to_string()),
    };
    let text = append_profile("", &sso).unwrap();
    let back = load_profiles(&text).unwrap();
    assert_eq!(back.len(), 1);
    let p = &back[0];
    assert_eq!(p.name, sso.name);
    assert_eq!(p.kind, sso.kind);
    assert_eq!(p.sso_start_url, sso.sso_start_url);
    assert_eq!(p.sso_region, sso.sso_region);
    assert_eq!(p.sso_account_id, sso.sso_account_id);
    assert_eq!(p.sso_role_name, sso.sso_role_name);
    assert_eq!(p.okta_org_domain, sso.okta_org_domain);
    assert_eq!(p.okta_aws_iam_role, sso.okta_aws_iam_role);
    assert_eq!(p.region, sso.region);
}

#[test]
fn round_trip_through_existing_store() {
    let existing = "[default]\nregion = eu-central-1\n";
    let fed = Profile {
        name: "fed".to_string(),
        kind: ProfileKind::Federated,
        sso_start_url: None,
        sso_region: None,
        sso_account_id: None,
        sso_role_name: None,
        okta_org_domain: Some("my-org.okta.com".to_string()),
        okta_oidc_client_id: Some("0oa5wyqjk6Wm148fE1d7".to_string()),
        okta_aws_account_federation_app_id: Some("0oa9x".to_string()),
        okta_aws_iam_role: None,
        okta_aws_iam_idp: None,
        region: Some("us-west-2".to_string()),
    };
    let text = append_profile(existing, &fed).unwrap();
    let back = load_profiles(&text).unwrap();
    assert_eq!(back.len(), 2);
    assert_eq!(back[0].name, "default");
    assert_eq!(back[1].name, "fed");
    assert_eq!(back[1].kind, ProfileKind::Federated);
    assert_eq!(back[1].okta_aws_account_federation_app_id.as_deref(), Some("0oa9x"));
    assert!(back[1].okta_aws_iam_role.is_none());
}

#[test]
fn append_credentials_writes_exact_section() {
    let out = append_credentials("", "dev", "AKIA123", "abc123").unwrap();
    assert_eq!(out, "[dev]\naws_access_key_id = AKIA123\naws_secret_access_key = abc123\n");
}

#[test]
fn append_credentials_duplicate_fails() {
    let existing = "[dev]\naws_access_key_id = AKIA123\naws_secret_access_key = abc123\n";
    let r = append_credentials(existing, "dev", "AKIA456", "def456");
    assert!(matches!(r, Err(ConfigError::DuplicateName(_))));
}

#[test]
fn append_credentials_prefix_does_not_collide() {
    let existing = "[dev]\naws_access_key_id = AKIA123\naws_secret_access_key = abc123\n";
    let out = append_credentials(existing, "dev-2", "AKIA456", "def456").unwrap();
    assert!(out.ends_with("[dev-2]\naws_access_key_id = AKIA456\naws_secret_access_key = def456\n"));
}

#[test]
fn verify_credentials_finds_section() {
    let text = "[dev]\naws_access_key_id = AKIA123\naws_secret_access_key = abc123\n";
    assert!(verify_credentials_text(text, "dev").is_ok());
}

#[test]
fn verify_credentials_missing_section() {
    let text = "[dev]\naws_access_key_id = AKIA123\naws_secret_access_key = abc123\n";
    let r = verify_credentials_text(text, "prod");
    match r {
        Err(ConfigError::CredentialsNotFound(n)) => assert_eq!(n, "prod"),
        _ => panic!("expected a credentials-not-found error"),
    }
}

#[test]
fn verify_credentials_malformed_text() {
    let r = verify_credentials_text("no delimiter here", "dev");
    assert!(matches!(r, Err(ConfigError::Parse)));
}

#[test]
fn values_are_trimmed_and_keys_padded() {
    let profiles = load_profiles("  [profile dev]  \n  region   =   us-east-1  \n").unwrap();
    assert_eq!(profiles.len(), 1);
    assert_eq!(profiles[0].name, "dev");
    assert_eq!(profiles[0].region.as_deref(), Some("us-east-1"));
}

#[test]
fn later_key_shadows_earlier() {
    let profiles = load_profiles("[profile dev]\nregion = one\nregion = two\n").unwrap();
    assert_eq!(profiles[0].region.as_deref(), Some("two"));
}

#[test]
fn appended_credentials_pass_verification() {
    let step1 = append_credentials("", "dev", "AKIA123", "abc123").unwrap();
    let step2 = append_credentials(&step1, "prod", "AKIA456", "def456").unwrap();
    assert!(verify_credentials_text(&step2, "dev").is_ok());
    assert!(verify_credentials_text(&step2, "prod").is_ok());
    assert!(verify_credentials_text(&step2, "stage").is_err());
}
