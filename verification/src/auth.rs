//! The authenticator dispatch: which login flow a profile needs, the exact
//! argument list of each external login command, and the credential
//! environment handed to the shell afterwards.

use vstd::prelude::*;
use vstd::string::*;

use crate::error::{ConfigError, ErrV, ProfileField};
use crate::ini::entries_view;
use crate::profile::{Profile, ProfileKind, ProfileV};

verus! {

/// Ghost form of [`AuthStep`].
pub enum AuthStepV {
    CheckCredentials,
    RunLogin { program: Seq<char>, args: Seq<Seq<char>> },
}

/// What authenticating a profile requires before credentials can be
/// resolved: a credentials-store check for standard profiles, or one
/// external login process for the other kinds.
pub enum AuthStep {
    /// Verify that the credentials store has a section for this profile.
    CheckCredentials,
    /// Run this external program with these arguments; a non-zero exit is
    /// a failed login.
    RunLogin { program: String, args: Vec<String> },
}

impl View for AuthStep {
    type V = AuthStepV;

    open spec fn view(&self) -> AuthStepV {
        match self {
            AuthStep::CheckCredentials => AuthStepV::CheckCredentials,
            AuthStep::RunLogin { program, args } => AuthStepV::RunLogin {
                program: program@,
                args: args.deep_view(),
            },
        }
    }
}

/// The argument list of the SSO login command.
pub open spec fn sso_login_args(name: Seq<char>) -> Seq<Seq<char>> {
    seq!["sso"@, "login"@, "--profile"@, name]
}

/// An optional flag with its value: nothing when the field is absent.
pub open spec fn opt_flag(flag: Seq<char>, o: Option<Seq<char>>) -> Seq<Seq<char>> {
    match o {
        Some(v) => seq![flag, v],
        None => Seq::empty(),
    }
}

/// The argument list of the federated login command: required org and
/// client flags, the optional federation flags, then the fixed output
/// options writing into the credentials store under this profile's name.
pub open spec fn okta_login_args(p: ProfileV) -> Seq<Seq<char>> {
    seq![
        "web"@,
        "--org-domain"@,
        p.okta_org_domain->Some_0,
        "--oidc-client-id"@,
        p.okta_oidc_client_id->Some_0,
    ] + opt_flag("--aws-acct-fed-app-id"@, p.okta_aws_account_federation_app_id) + opt_flag(
        "--aws-iam-role"@,
        p.okta_aws_iam_role,
    ) + opt_flag("--aws-iam-idp"@, p.okta_aws_iam_idp) + seq![
        "--format"@,
        "aws-credentials"@,
        "--profile"@,
        p.name,
        "--write-aws-credentials"@,
    ]
}

/// The dispatch decision for `p`: standard profiles need only the
/// credentials-store check; SSO profiles run the cloud CLI's SSO login;
/// federated profiles run the federation CLI, failing fast when a
/// required field is missing.
pub open spec fn spec_auth_step(p: ProfileV) -> Result<AuthStepV, ErrV> {
    match p.kind {
        ProfileKind::Standard => Ok(AuthStepV::CheckCredentials),
        ProfileKind::Sso => Ok(
            AuthStepV::RunLogin { program: "aws"@, args: sso_login_args(p.name) },
        ),
        ProfileKind::Federated => {
            if p.okta_org_domain is None {
                Err(ErrV::ConfigIncomplete(ProfileField::OktaOrgDomain))
            } else if p.okta_oidc_client_id is None {
                Err(ErrV::ConfigIncomplete(ProfileField::OktaOidcClientId))
            } else {
                Ok(AuthStepV::RunLogin { program: "okta-aws-cli"@, args: okta_login_args(p) })
            }
        },
    }
}

/// The dispatch result, in ghost form.
pub open spec fn step_result(r: Result<AuthStep, ConfigError>) -> Result<AuthStepV, ErrV> {
    match r {
        Ok(s) => Ok(s@),
        Err(e) => Err(e@),
    }
}

/// Append one argument.
fn push_arg(args: &mut Vec<String>, a: &str)
    ensures
        final(args).deep_view() == old(args).deep_view().push(a@),
{
    args.push(String::from_str(a));
    proof {
        assert(args.deep_view() =~= old(args).deep_view().push(a@));
    }
}

/// Append a cloned argument.
fn push_arg_string(args: &mut Vec<String>, a: &String)
    ensures
        final(args).deep_view() == old(args).deep_view().push(a@),
{
    args.push(a.clone());
    proof {
        assert(args.deep_view() =~= old(args).deep_view().push(a@));
    }
}

/// Append an optional flag and its value.
fn push_opt_flag(args: &mut Vec<String>, flag: &str, o: &Option<String>)
    ensures
        final(args).deep_view() == old(args).deep_view() + opt_flag(flag@, o.deep_view()),
{
    match o {
        Some(v) => {
            push_arg(args, flag);
            push_arg_string(args, v);
            proof {
                assert(args.deep_view() =~= old(args).deep_view() + opt_flag(
                    flag@,
                    o.deep_view(),
                ));
            }
        },
        None => {
            proof {
                assert(args.deep_view() =~= old(args).deep_view() + opt_flag(
                    flag@,
                    o.deep_view(),
                ));
            }
        },
    }
}

/// Executable form of [`spec_auth_step`].
pub fn auth_step(p: &Profile) -> (r: Result<AuthStep, ConfigError>)
    ensures
        step_result(r) == spec_auth_step(p@),
{
    match p.kind {
        ProfileKind::Standard => Ok(AuthStep::CheckCredentials),
        ProfileKind::Sso => {
            let mut args: Vec<String> = Vec::new();
            push_arg(&mut args, "sso");
            push_arg(&mut args, "login");
            push_arg(&mut args, "--profile");
            push_arg_string(&mut args, &p.name);
            proof {
                assert(args.deep_view() =~= sso_login_args(p@.name));
            }
            Ok(AuthStep::RunLogin { program: String::from_str("aws"), args })
        },
        ProfileKind::Federated => {
            let org = match &p.okta_org_domain {
                Some(v) => v,
                None => {
                    return Err(ConfigError::ConfigIncomplete(ProfileField::OktaOrgDomain));
                },
            };
            let client = match &p.okta_oidc_client_id {
                Some(v) => v,
                None => {
                    return Err(ConfigError::ConfigIncomplete(ProfileField::OktaOidcClientId));
                },
            };
            let mut args: Vec<String> = Vec::new();
            push_arg(&mut args, "web");
            push_arg(&mut args, "--org-domain");
            push_arg_string(&mut args, org);
            push_arg(&mut args, "--oidc-client-id");
            push_arg_string(&mut args, client);
            let ghost g0 = seq![
                "web"@,
                "--org-domain"@,
                p@.okta_org_domain->Some_0,
                "--oidc-client-id"@,
                p@.okta_oidc_client_id->Some_0,
            ];
            proof {
                assert(args.deep_view() =~= g0);
            }
            push_opt_flag(
                &mut args,
                "--aws-acct-fed-app-id",
                &p.okta_aws_account_federation_app_id,
            );
            let ghost g1 = g0 + opt_flag(
                "--aws-acct-fed-app-id"@,
                p@.okta_aws_account_federation_app_id,
            );
            push_opt_flag(&mut args, "--aws-iam-role", &p.okta_aws_iam_role);
            let ghost g2 = g1 + opt_flag("--aws-iam-role"@, p@.okta_aws_iam_role);
            push_opt_flag(&mut args, "--aws-iam-idp", &p.okta_aws_iam_idp);
            let ghost g3 = g2 + opt_flag("--aws-iam-idp"@, p@.okta_aws_iam_idp);
            proof {
                assert(args.deep_view() == g3);
            }
            push_arg(&mut args, "--format");
            push_arg(&mut args, "aws-credentials");
            push_arg(&mut args, "--profile");
            push_arg_string(&mut args, &p.name);
            push_arg(&mut args, "--write-aws-credentials");
            proof {
                assert(args.deep_view() =~= g3 + seq![
                    "--format"@,
                    "aws-credentials"@,
                    "--profile"@,
                    p@.name,
                    "--write-aws-credentials"@,
                ]);
                assert(g3 + seq![
                    "--format"@,
                    "aws-credentials"@,
                    "--profile"@,
                    p@.name,
                    "--write-aws-credentials"@,
                ] == okta_login_args(p@));
            }
            Ok(AuthStep::RunLogin { program: String::from_str("okta-aws-cli"), args })
        },
    }
}

/// The outcome of a login process: success, or a failed-login error on a
/// non-zero exit.
pub fn login_outcome(exit_ok: bool) -> (r: Result<(), ConfigError>)
    ensures
        exit_ok ==> r is Ok,
        !exit_ok ==> r is Err && r->Err_0@ == ErrV::LoginFailed,
{
    if exit_ok {
        Ok(())
    } else {
        Err(ConfigError::LoginFailed)
    }
}

/// One retained environment pair, or nothing.
pub open spec fn env_opt(k: Seq<char>, o: Option<Seq<char>>) -> Seq<(Seq<char>, Seq<char>)> {
    match o {
        Some(v) => seq![(k, v)],
        None => Seq::empty(),
    }
}

/// The environment map of freshly resolved credentials: the key pair, the
/// session token when one came back, the configured region twice, and the
/// profile name.
pub open spec fn spec_credentials_env(
    p: ProfileV,
    access_key_id: Seq<char>,
    secret_access_key: Seq<char>,
    session_token: Option<Seq<char>>,
) -> Seq<(Seq<char>, Seq<char>)> {
    seq![("AWS_ACCESS_KEY_ID"@, access_key_id), ("AWS_SECRET_ACCESS_KEY"@, secret_access_key)]
        + env_opt("AWS_SESSION_TOKEN"@, session_token) + match p.region {
        Some(rg) => seq![("AWS_REGION"@, rg), ("AWS_DEFAULT_REGION"@, rg)],
        None => Seq::empty(),
    } + seq![("AWS_PROFILE"@, p.name)]
}

/// Append one environment pair.
fn push_env(env: &mut Vec<(String, String)>, k: &str, v: &str)
    ensures
        entries_view(final(env)@) == entries_view(old(env)@).push((k@, v@)),
{
    env.push((String::from_str(k), String::from_str(v)));
    proof {
        assert(entries_view(env@) =~= entries_view(old(env)@).push((k@, v@)));
    }
}

/// Executable form of [`spec_credentials_env`].
pub fn credentials_env(
    p: &Profile,
    access_key_id: &str,
    secret_access_key: &str,
    session_token: Option<&str>,
) -> (r: Vec<(String, String)>)
    ensures
        entries_view(r@) == spec_credentials_env(
            p@,
            access_key_id@,
            secret_access_key@,
            session_token.deep_view(),
        ),
{
    let mut env: Vec<(String, String)> = Vec::new();
    push_env(&mut env, "AWS_ACCESS_KEY_ID", access_key_id);
    push_env(&mut env, "AWS_SECRET_ACCESS_KEY", secret_access_key);
    let ghost g0 = seq![
        ("AWS_ACCESS_KEY_ID"@, access_key_id@),
        ("AWS_SECRET_ACCESS_KEY"@, secret_access_key@),
    ];
    proof {
        assert(entries_view(env@) =~= g0);
    }
    match session_token {
        Some(t) => {
            push_env(&mut env, "AWS_SESSION_TOKEN", t);
        },
        None => {},
    }
    let ghost g1 = g0 + env_opt("AWS_SESSION_TOKEN"@, session_token.deep_view());
    proof {
        assert(entries_view(env@) =~= g1);
    }
    match &p.region {
        Some(rg) => {
            push_env(&mut env, "AWS_REGION", rg.as_str());
            push_env(&mut env, "AWS_DEFAULT_REGION", rg.as_str());
        },
        None => {},
    }
    let ghost g2 = g1 + match p@.region {
        Some(rg) => seq![("AWS_REGION"@, rg), ("AWS_DEFAULT_REGION"@, rg)],
        None => Seq::empty(),
    };
    proof {
        assert(entries_view(env@) =~= g2);
    }
    push_env(&mut env, "AWS_PROFILE", p.name.as_str());
    proof {
        assert(entries_view(env@) =~= g2 + seq![("AWS_PROFILE"@, p@.name)]);
        assert(g2 + seq![("AWS_PROFILE"@, p@.name)] == spec_credentials_env(
            p@,
            access_key_id@,
            secret_access_key@,
            session_token.deep_view(),
        ));
    }
    env
}

} // verus!
