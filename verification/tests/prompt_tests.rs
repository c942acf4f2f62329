use aaa::error::{ConfigError, ProfileField};
use aaa::profile::{Profile, ProfileKind};
use aaa::prompt::{new_okta_profile, new_sso_profile, new_standard_profile};
use aaa::store::load_profiles;

fn no_profiles() -> Vec<Profile> {
    Vec::new()
}

#[test]
fn name_with_space_and_bang_is_rejected() {
    let r = new_standard_profile("my profile!", "AKIA123", "abc", "us-east-1", &no_profiles(), "");
    assert!(matches!(r, Err(ConfigError::Validation(ProfileField::Name))));
}

#[test]
fn name_with_hyphen_underscore_digit_is_accepted() {
    let r = new_standard_profile("my-profile_2", "AKIA123", "abc", "us-east-1", &no_profiles(), "");
    let (p, akid, secret) = r.unwrap();
    assert_eq!(p.name, "my-profile_2");
    assert_eq!(p.kind, ProfileKind::Standard);
    assert_eq!(akid, "AKIA123");
    assert_eq!(secret, "abc");
}

#[test]
fn empty_name_is_rejected() {
    let r = new_standard_profile("   ", "AKIA123", "abc", "us-east-1", &no_profiles(), "");
    assert!(matches!(r, Err(ConfigError::Validation(ProfileField::Name))));
}

#[test]
fn access_key_alphanumeric_is_accepted() {
    let r = new_standard_profile("dev", "AKIA123", "abc", "us-east-1", &no_profiles(), "");
    assert!(r.is_ok());
}

#[test]
fn access_key_with_hyphen_is_rejected() {
    let r = new_standard_profile("dev", "AKIA-123", "abc", "us-east-1", &no_profiles(), "");
    assert!(matches!(r, Err(ConfigError::Validation(ProfileField::AccessKeyId))));
}

#[test]
fn secret_key_base64_alphabet_is_accepted() {
    let r = new_standard_profile("dev", "AKIA123", "aB3+/=", "us-east-1", &no_profiles(), "");
    assert!(r.is_ok());
}

#[test]
fn secret_key_with_space_is_rejected() {
    let r = new_standard_profile("dev", "AKIA123", "ab cd", "us-east-1", &no_profiles(), "");
    assert!(matches!(r, Err(ConfigError::Validation(ProfileField::SecretAccessKey))));
}

#[test]
fn region_with_hyphen_is_accepted() {
    let r = new_standard_profile("dev", "AKIA123", "abc", "us-east-1", &no_profiles(), "");
    assert!(r.is_ok());
}

#[test]
fn region_with_underscore_is_rejected() {
    let r = new_standard_profile("dev", "AKIA123", "abc", "us_east_1", &no_profiles(), "");
    assert!(matches!(r, Err(ConfigError::Validation(ProfileField::Region))));
}

#[test]
fn duplicate_name_in_loaded_profiles_is_rejected() {
    let existing = load_profiles("[profile dev]\nregion = us-east-1\n").unwrap();
    let r = new_standard_profile("dev", "AKIA123", "abc", "us-east-1", &existing, "");
    match r {
        Err(ConfigError::DuplicateName(n)) => assert_eq!(n, "dev"),
        _ => panic!("expected a duplicate-name error"),
    }
}

#[test]
fn duplicate_name_in_credentials_store_is_rejected() {
    let creds = "[dev]\naws_access_key_id = AKIA1\naws_secret_access_key = a\n";
    let r = new_standard_profile("dev", "AKIA123", "abc", "us-east-1", &no_profiles(), creds);
    assert!(matches!(r, Err(ConfigError::DuplicateName(_))));
}

#[test]
fn sso_profile_is_built_from_trimmed_fields() {
    let r = new_sso_profile(
        "  corp  ",
        " https://corp.awsapps.com/start ",
        "us-east-1",
        "123456789012",
        "PowerUserAccess",
        "us-east-1",
        &no_profiles(),
    );
    let p = r.unwrap();
    assert_eq!(p.name, "corp");
    assert_eq!(p.kind, ProfileKind::Sso);
    assert_eq!(p.sso_start_url.as_deref(), Some("https://corp.awsapps.com/start"));
    assert_eq!(p.sso_role_name.as_deref(), Some("PowerUserAccess"));
}

#[test]
fn sso_profile_empty_start_url_is_rejected() {
    let r = new_sso_profile("corp", "  ", "us-east-1", "1", "role", "us-east-1", &no_profiles());
    assert!(matches!(r, Err(ConfigError::Validation(ProfileField::SsoStartUrl))));
}

#[test]
fn okta_profile_empty_optionals_are_absent() {
    let r = new_okta_profile(
        "fed",
        "my-org.okta.com",
        "0oa5wyqjk6Wm148fE1d7",
        "",
        "",
        "",
        "us-west-2",
        &no_profiles(),
    );
    let p = r.unwrap();
    assert_eq!(p.kind, ProfileKind::Federated);
    assert_eq!(p.okta_org_domain.as_deref(), Some("my-org.okta.com"));
    assert!(p.okta_aws_account_federation_app_id.is_none());
    assert!(p.okta_aws_iam_role.is_none());
    assert!(p.okta_aws_iam_idp.is_none());
}

#[test]
fn okta_profile_set_optionals_are_kept() {
    let r = new_okta_profile(
        "fed",
        "my-org.okta.com",
        "0oa5wyqjk6Wm148fE1d7",
        "0oa9xFedApp",
        "arn:aws:iam::123456789012:role/MyRole",
        "arn:aws:iam::123456789012:saml-provider/okta-idp",
        "us-west-2",
        &no_profiles(),
    );
    let p = r.unwrap();
    assert_eq!(p.okta_aws_account_federation_app_id.as_deref(), Some("0oa9xFedApp"));
    assert_eq!(p.okta_aws_iam_role.as_deref(), Some("arn:aws:iam::123456789012:role/MyRole"));
    assert_eq!(
        p.okta_aws_iam_idp.as_deref(),
        Some("arn:aws:iam::123456789012:saml-provider/okta-idp")
    );
}

#[test]
fn okta_profile_missing_org_domain_is_rejected() {
    let r = new_okta_profile("fed", " ", "client", "", "", "", "us-west-2", &no_profiles());
    assert!(matches!(r, Err(ConfigError::Validation(ProfileField::OktaOrgDomain))));
}
