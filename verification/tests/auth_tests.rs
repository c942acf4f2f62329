use aaa::auth::{auth_step, credentials_env, login_outcome, AuthStep};
use aaa::error::{ConfigError, ProfileField};
use aaa::profile::{Profile, ProfileKind};
use aaa::store::load_profiles;

fn loaded(text: &str) -> Profile {
    let mut profiles = load_profiles(text).unwrap();
    assert_eq!(profiles.len(), 1);
    profiles.remove(0)
}

#[test]
fn standard_profile_checks_credentials_store() {
    let p = loaded("[profile dev]\nregion = us-east-1\n");
    match auth_step(&p).unwrap() {
        AuthStep::CheckCredentials => {},
        _ => panic!("expected the credentials-store check"),
    }
}

#[test]
fn sso_profile_runs_sso_login() {
    let p = loaded("[profile corp]\nsso_start_url = https://x/start\n");
    match auth_step(&p).unwrap() {
        AuthStep::RunLogin { program, args } => {
            assert_eq!(program, "aws");
            assert_eq!(args, vec!["sso", "login", "--profile", "corp"]);
        },
        _ => panic!("expected an external login"),
    }
}

#[test]
fn federated_profile_runs_federation_cli_with_full_args() {
    let text = "[profile fed]\nokta_org_domain = my-org.okta.com\nokta_oidc_client_id = 0oa5\nokta_aws_account_federation_app_id = 0oa9\nokta_aws_iam_role = arnrole\nokta_aws_iam_idp = arnidp\n";
    let p = loaded(text);
    match auth_step(&p).unwrap() {
        AuthStep::RunLogin { program, args } => {
            assert_eq!(program, "okta-aws-cli");
            assert_eq!(
                args,
                vec![
                    "web",
                    "--org-domain",
                    "my-org.okta.com",
                    "--oidc-client-id",
                    "0oa5",
                    "--aws-acct-fed-app-id",
                    "0oa9",
                    "--aws-iam-role",
                    "arnrole",
                    "--aws-iam-idp",
                    "arnidp",
                    "--format",
                    "aws-credentials",
                    "--profile",
                    "fed",
                    "--write-aws-credentials",
                ]
            );
        },
        _ => panic!("expected an external login"),
    }
}

#[test]
fn federated_profile_skips_absent_optional_flags() {
    let text = "[profile fed]\nokta_org_domain = my-org.okta.com\nokta_oidc_client_id = 0oa5\n";
    let p = loaded(text);
    match auth_step(&p).unwrap() {
        AuthStep::RunLogin { program: _, args } => {
            assert_eq!(
                args,
                vec![
                    "web",
                    "--org-domain",
                    "my-org.okta.com",
                    "--oidc-client-id",
                    "0oa5",
                    "--format",
                    "aws-credentials",
                    "--profile",
                    "fed",
                    "--write-aws-credentials",
                ]
            );
        },
        _ => panic!("expected an external login"),
    }
}

#[test]
fn federated_profile_missing_client_id_fails_fast() {
    let mut p = loaded("[profile fed]\nokta_org_domain = my-org.okta.com\n");
    assert_eq!(p.kind, ProfileKind::Federated);
    p.okta_oidc_client_id = None;
    let r = auth_step(&p);
    assert!(matches!(
        r,
        Err(ConfigError::ConfigIncomplete(ProfileField::OktaOidcClientId))
    ));
}

#[test]
fn login_outcome_maps_exit_status() {
    assert!(login_outcome(true).is_ok());
    assert!(matches!(login_outcome(false), Err(ConfigError::LoginFailed)));
}

#[test]
fn credentials_env_with_token_and_region() {
    let p = loaded("[profile dev]\nregion = us-east-1\n");
    let env = credentials_env(&p, "AKIA123", "secret", Some("tok"));
    let expected: Vec<(String, String)> = vec![
        ("AWS_ACCESS_KEY_ID".to_string(), "AKIA123".to_string()),
        ("AWS_SECRET_ACCESS_KEY".to_string(), "secret".to_string()),
        ("AWS_SESSION_TOKEN".to_string(), "tok".to_string()),
        ("AWS_REGION".to_string(), "us-east-1".to_string()),
        ("AWS_DEFAULT_REGION".to_string(), "us-east-1".to_string()),
        ("AWS_PROFILE".to_string(), "dev".to_string()),
    ];
    assert_eq!(env, expected);
}

#[test]
fn credentials_env_without_token_or_region() {
    let p = loaded("[profile bare]\nsso_start_url = https://x/start\n");
    let mut p = p;
    p.region = None;
    let env = credentials_env(&p, "AKIA123", "secret", None);
    let expected: Vec<(String, String)> = vec![
        ("AWS_ACCESS_KEY_ID".to_string(), "AKIA123".to_string()),
        ("AWS_SECRET_ACCESS_KEY".to_string(), "secret".to_string()),
        ("AWS_PROFILE".to_string(), "bare".to_string()),
    ];
    assert_eq!(env, expected);
}
