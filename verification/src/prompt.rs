//! The new-profile creation rules: what the interactive prompter accepts,
//! in which order it rejects, and the profile each flow builds.
//!
//! Each flow takes the raw prompted strings and the already-loaded
//! profiles, and either returns the finished profile or the first error in
//! prompt order. Every field is trimmed; required fields must be non-empty
//! and single-line.

use vstd::prelude::*;
use vstd::string::*;

use crate::error::{ConfigError, ErrV, ProfileField};
use crate::profile::{clean_value, valid_profile_name, Profile, ProfileKind, ProfileV};
use crate::store::has_credentials_section;
use crate::text::{find_char, lemma_find_ch, lemma_trimmed_idempotent, str_eq, trim, trimmed};
use crate::validate::{
    is_valid_access_key, is_valid_profile_name, is_valid_region, is_valid_secret_key,
    lemma_valid_name_clean, lemma_valid_region_clean, valid_access_key, valid_region,
    valid_secret_key,
};

verus! {

/// A required field, once trimmed: non-empty and single-line.
pub open spec fn required_ok(v: Seq<char>) -> bool {
    trimmed(v).len() > 0 && no_newline(trimmed(v))
}

/// An optional field, once trimmed: empty, or single-line.
pub open spec fn optional_ok(v: Seq<char>) -> bool {
    trimmed(v).len() == 0 || no_newline(trimmed(v))
}

pub open spec fn no_newline(v: Seq<char>) -> bool {
    forall|i: int| 0 <= i < v.len() ==> v[i] != '\n'
}

/// An optional field's stored value: absent when the trimmed input is
/// empty.
pub open spec fn opt_field(v: Seq<char>) -> Option<Seq<char>> {
    if trimmed(v).len() == 0 {
        None
    } else {
        Some(trimmed(v))
    }
}

/// Whether some already-loaded profile bears the name `n`.
pub open spec fn name_taken(ps: Seq<ProfileV>, n: Seq<char>) -> bool {
    exists|i: int| 0 <= i < ps.len() && ps[i].name == n
}

/// The result of a creation flow, in ghost form.
pub open spec fn profile_result(r: Result<Profile, ConfigError>) -> Result<ProfileV, ErrV> {
    match r {
        Ok(p) => Ok(p@),
        Err(e) => Err(e@),
    }
}

/// A trimmed, single-line value is a clean store value.
proof fn lemma_required_clean(v: Seq<char>)
    requires
        no_newline(trimmed(v)),
    ensures
        clean_value(trimmed(v)),
{
    lemma_trimmed_idempotent(v);
}

/// Executable form of [`name_taken`].
pub fn profile_name_taken(profiles: &Vec<Profile>, name: &str) -> (r: bool)
    ensures
        r == name_taken(profiles.deep_view(), name@),
{
    let ghost psv = profiles.deep_view();
    let mut i: usize = 0;
    proof {
        assert(psv.len() == profiles@.len());
    }
    while i < profiles.len()
        invariant
            0 <= i <= profiles.len(),
            psv == profiles.deep_view(),
            psv.len() == profiles@.len(),
            forall|k: int| 0 <= k < i ==> psv[k].name != name@,
        decreases profiles.len() - i,
    {
        proof {
            assert(profiles.deep_view()[i as int] == profiles@[i as int].deep_view());
        }
        if str_eq(profiles[i].name.as_str(), name) {
            proof {
                assert(psv[i as int].name == name@);
            }
            return true;
        }
        i = i + 1;
    }
    false
}

/// Check a required field: trimmed, non-empty, single-line.
fn check_required(v: &str) -> (r: Option<String>)
    ensures
        r is Some <==> required_ok(v@),
        r is Some ==> r->Some_0@ == trimmed(v@) && clean_value(trimmed(v@)),
{
    let t = trim(v);
    if t.unicode_len() == 0 {
        return None;
    }
    match find_char(t, '\n') {
        Some(i) => {
            proof {
                lemma_find_ch(t@, '\n');
            }
            None
        },
        None => {
            proof {
                lemma_find_ch(t@, '\n');
                lemma_required_clean(v@);
            }
            Some(String::from_str(t))
        },
    }
}

/// Check an optional field: absent when empty, else single-line.
fn check_optional(v: &str) -> (r: Result<Option<String>, ()>)
    ensures
        r is Ok <==> optional_ok(v@),
        r is Ok ==> match opt_field(v@) {
            Some(t) => r->Ok_0 is Some && r->Ok_0->Some_0@ == t && clean_value(t),
            None => r->Ok_0 is None,
        },
{
    let t = trim(v);
    if t.unicode_len() == 0 {
        return Ok(None);
    }
    match find_char(t, '\n') {
        Some(i) => {
            proof {
                lemma_find_ch(t@, '\n');
            }
            Err(())
        },
        None => {
            proof {
                lemma_find_ch(t@, '\n');
                lemma_required_clean(v@);
            }
            Ok(Some(String::from_str(t)))
        },
    }
}

/// Check a region-shaped field: trimmed, letters, digits, hyphens.
fn check_region(v: &str) -> (r: Option<String>)
    ensures
        r is Some <==> valid_region(trimmed(v@)),
        r is Some ==> r->Some_0@ == trimmed(v@) && clean_value(trimmed(v@)),
{
    let t = trim(v);
    if is_valid_region(t) {
        proof {
            lemma_valid_region_clean(t@);
            lemma_trimmed_idempotent(v@);
        }
        Some(String::from_str(t))
    } else {
        None
    }
}

/// What the SSO creation flow decides, in prompt order.
pub open spec fn spec_new_sso_profile(
    name: Seq<char>,
    sso_start_url: Seq<char>,
    sso_region: Seq<char>,
    sso_account_id: Seq<char>,
    sso_role_name: Seq<char>,
    region: Seq<char>,
    existing: Seq<ProfileV>,
) -> Result<ProfileV, ErrV> {
    let n = trimmed(name);
    if !valid_profile_name(n) {
        Err(ErrV::Validation(ProfileField::Name))
    } else if name_taken(existing, n) {
        Err(ErrV::DuplicateName(n))
    } else if !required_ok(sso_start_url) {
        Err(ErrV::Validation(ProfileField::SsoStartUrl))
    } else if !valid_region(trimmed(sso_region)) {
        Err(ErrV::Validation(ProfileField::SsoRegion))
    } else if !required_ok(sso_account_id) {
        Err(ErrV::Validation(ProfileField::SsoAccountId))
    } else if !required_ok(sso_role_name) {
        Err(ErrV::Validation(ProfileField::SsoRoleName))
    } else if !valid_region(trimmed(region)) {
        Err(ErrV::Validation(ProfileField::Region))
    } else {
        Ok(
            ProfileV {
                name: n,
                kind: ProfileKind::Sso,
                sso_start_url: Some(trimmed(sso_start_url)),
                sso_region: Some(trimmed(sso_region)),
                sso_account_id: Some(trimmed(sso_account_id)),
                sso_role_name: Some(trimmed(sso_role_name)),
                okta_org_domain: None,
                okta_oidc_client_id: None,
                okta_aws_account_federation_app_id: None,
                okta_aws_iam_role: None,
                okta_aws_iam_idp: None,
                region: Some(trimmed(region)),
            },
        )
    }
}

/// Build a new SSO profile from prompted input, or fail with the first
/// error in prompt order. A successful result is well-formed.
pub fn new_sso_profile(
    name: &str,
    sso_start_url: &str,
    sso_region: &str,
    sso_account_id: &str,
    sso_role_name: &str,
    region: &str,
    existing: &Vec<Profile>,
) -> (r: Result<Profile, ConfigError>)
    ensures
        profile_result(r) == spec_new_sso_profile(
            name@,
            sso_start_url@,
            sso_region@,
            sso_account_id@,
            sso_role_name@,
            region@,
            existing.deep_view(),
        ),
        r is Ok ==> r->Ok_0.wf(),
{
    let n = trim(name);
    if !is_valid_profile_name(n) {
        return Err(ConfigError::Validation(ProfileField::Name));
    }
    if profile_name_taken(existing, n) {
        return Err(ConfigError::DuplicateName(String::from_str(n)));
    }
    let start_url = match check_required(sso_start_url) {
        Some(v) => v,
        None => {
            return Err(ConfigError::Validation(ProfileField::SsoStartUrl));
        },
    };
    let sso_rg = match check_region(sso_region) {
        Some(v) => v,
        None => {
            return Err(ConfigError::Validation(ProfileField::SsoRegion));
        },
    };
    let account = match check_required(sso_account_id) {
        Some(v) => v,
        None => {
            return Err(ConfigError::Validation(ProfileField::SsoAccountId));
        },
    };
    let role = match check_required(sso_role_name) {
        Some(v) => v,
        None => {
            return Err(ConfigError::Validation(ProfileField::SsoRoleName));
        },
    };
    let rg = match check_region(region) {
        Some(v) => v,
        None => {
            return Err(ConfigError::Validation(ProfileField::Region));
        },
    };
    proof {
        lemma_valid_name_clean(n@);
    }
    Ok(
        Profile {
            name: String::from_str(n),
            kind: ProfileKind::Sso,
            sso_start_url: Some(start_url),
            sso_region: Some(sso_rg),
            sso_account_id: Some(account),
            sso_role_name: Some(role),
            okta_org_domain: None,
            okta_oidc_client_id: None,
            okta_aws_account_federation_app_id: None,
            okta_aws_iam_role: None,
            okta_aws_iam_idp: None,
            region: Some(rg),
        },
    )
}

/// What the federated (Okta) creation flow decides, in prompt order.
pub open spec fn spec_new_okta_profile(
    name: Seq<char>,
    org_domain: Seq<char>,
    oidc_client_id: Seq<char>,
    federation_app_id: Seq<char>,
    iam_role: Seq<char>,
    iam_idp: Seq<char>,
    region: Seq<char>,
    existing: Seq<ProfileV>,
) -> Result<ProfileV, ErrV> {
    let n = trimmed(name);
    if !valid_profile_name(n) {
        Err(ErrV::Validation(ProfileField::Name))
    } else if name_taken(existing, n) {
        Err(ErrV::DuplicateName(n))
    } else if !required_ok(org_domain) {
        Err(ErrV::Validation(ProfileField::OktaOrgDomain))
    } else if !required_ok(oidc_client_id) {
        Err(ErrV::Validation(ProfileField::OktaOidcClientId))
    } else if !optional_ok(federation_app_id) {
        Err(ErrV::Validation(ProfileField::AwsFederationAppId))
    } else if !optional_ok(iam_role) {
        Err(ErrV::Validation(ProfileField::AwsIamRole))
    } else if !optional_ok(iam_idp) {
        Err(ErrV::Validation(ProfileField::AwsIamIdp))
    } else if !valid_region(trimmed(region)) {
        Err(ErrV::Validation(ProfileField::Region))
    } else {
        Ok(
            ProfileV {
                name: n,
                kind: ProfileKind::Federated,
                sso_start_url: None,
                sso_region: None,
                sso_account_id: None,
                sso_role_name: None,
                okta_org_domain: Some(trimmed(org_domain)),
                okta_oidc_client_id: Some(trimmed(oidc_client_id)),
                okta_aws_account_federation_app_id: opt_field(federation_app_id),
                okta_aws_iam_role: opt_field(iam_role),
                okta_aws_iam_idp: opt_field(iam_idp),
                region: Some(trimmed(region)),
            },
        )
    }
}

/// Build a new federated profile from prompted input, or fail with the
/// first error in prompt order. A successful result is well-formed.
pub fn new_okta_profile(
    name: &str,
    org_domain: &str,
    oidc_client_id: &str,
    federation_app_id: &str,
    iam_role: &str,
    iam_idp: &str,
    region: &str,
    existing: &Vec<Profile>,
) -> (r: Result<Profile, ConfigError>)
    ensures
        profile_result(r) == spec_new_okta_profile(
            name@,
            org_domain@,
            oidc_client_id@,
            federation_app_id@,
            iam_role@,
            iam_idp@,
            region@,
            existing.deep_view(),
        ),
        r is Ok ==> r->Ok_0.wf(),
{
    let n = trim(name);
    if !is_valid_profile_name(n) {
        return Err(ConfigError::Validation(ProfileField::Name));
    }
    if profile_name_taken(existing, n) {
        return Err(ConfigError::DuplicateName(String::from_str(n)));
    }
    let org = match check_required(org_domain) {
        Some(v) => v,
        None => {
            return Err(ConfigError::Validation(ProfileField::OktaOrgDomain));
        },
    };
    let client = match check_required(oidc_client_id) {
        Some(v) => v,
        None => {
            return Err(ConfigError::Validation(ProfileField::OktaOidcClientId));
        },
    };
    let app_id = match check_optional(federation_app_id) {
        Ok(v) => v,
        Err(()) => {
            return Err(ConfigError::Validation(ProfileField::AwsFederationAppId));
        },
    };
    let role = match check_optional(iam_role) {
        Ok(v) => v,
        Err(()) => {
            return Err(ConfigError::Validation(ProfileField::AwsIamRole));
        },
    };
    let idp = match check_optional(iam_idp) {
        Ok(v) => v,
        Err(()) => {
            return Err(ConfigError::Validation(ProfileField::AwsIamIdp));
        },
    };
    let rg = match check_region(region) {
        Some(v) => v,
        None => {
            return Err(ConfigError::Validation(ProfileField::Region));
        },
    };
    proof {
        lemma_valid_name_clean(n@);
    }
    Ok(
        Profile {
            name: String::from_str(n),
            kind: ProfileKind::Federated,
            sso_start_url: None,
            sso_region: None,
            sso_account_id: None,
            sso_role_name: None,
            okta_org_domain: Some(org),
            okta_oidc_client_id: Some(client),
            okta_aws_account_federation_app_id: app_id,
            okta_aws_iam_role: role,
            okta_aws_iam_idp: idp,
            region: Some(rg),
        },
    )
}

/// What the static-credentials creation flow decides, in prompt order.
/// On success it yields the profile and the trimmed credential pair for
/// the credentials store.
pub open spec fn spec_new_standard_profile(
    name: Seq<char>,
    access_key_id: Seq<char>,
    secret_access_key: Seq<char>,
    region: Seq<char>,
    existing: Seq<ProfileV>,
    credentials_text: Seq<char>,
) -> Result<(ProfileV, Seq<char>, Seq<char>), ErrV> {
    let n = trimmed(name);
    if !valid_profile_name(n) {
        Err(ErrV::Validation(ProfileField::Name))
    } else if name_taken(existing, n) {
        Err(ErrV::DuplicateName(n))
    } else if has_credentials_section(credentials_text, n) {
        Err(ErrV::DuplicateName(n))
    } else if !valid_access_key(trimmed(access_key_id)) {
        Err(ErrV::Validation(ProfileField::AccessKeyId))
    } else if !valid_secret_key(trimmed(secret_access_key)) {
        Err(ErrV::Validation(ProfileField::SecretAccessKey))
    } else if !valid_region(trimmed(region)) {
        Err(ErrV::Validation(ProfileField::Region))
    } else {
        Ok(
            (
                ProfileV {
                    name: n,
                    kind: ProfileKind::Standard,
                    sso_start_url: None,
                    sso_region: None,
                    sso_account_id: None,
                    sso_role_name: None,
                    okta_org_domain: None,
                    okta_oidc_client_id: None,
                    okta_aws_account_federation_app_id: None,
                    okta_aws_iam_role: None,
                    okta_aws_iam_idp: None,
                    region: Some(trimmed(region)),
                },
                trimmed(access_key_id),
                trimmed(secret_access_key),
            ),
        )
    }
}

/// The result of the static-credentials flow, in ghost form.
pub open spec fn standard_result(r: Result<(Profile, String, String), ConfigError>) -> Result<
    (ProfileV, Seq<char>, Seq<char>),
    ErrV,
> {
    match r {
        Ok(t) => Ok((t.0@, t.1@, t.2@)),
        Err(e) => Err(e@),
    }
}

/// Build a new static-credentials profile from prompted input, or fail
/// with the first error in prompt order: bad or taken name, a name that
/// already has a credentials section, then each malformed credential
/// field. A successful profile is well-formed and comes with the trimmed
/// key pair to append to the credentials store.
pub fn new_standard_profile(
    name: &str,
    access_key_id: &str,
    secret_access_key: &str,
    region: &str,
    existing: &Vec<Profile>,
    credentials_text: &str,
) -> (r: Result<(Profile, String, String), ConfigError>)
    ensures
        standard_result(r) == spec_new_standard_profile(
            name@,
            access_key_id@,
            secret_access_key@,
            region@,
            existing.deep_view(),
            credentials_text@,
        ),
        r is Ok ==> r->Ok_0.0.wf(),
{
    let n = trim(name);
    if !is_valid_profile_name(n) {
        return Err(ConfigError::Validation(ProfileField::Name));
    }
    if profile_name_taken(existing, n) {
        return Err(ConfigError::DuplicateName(String::from_str(n)));
    }
    let header = crate::store::render_cred_header(n);
    if crate::store::contains_trimmed_line(credentials_text, header.as_str()) {
        return Err(ConfigError::DuplicateName(String::from_str(n)));
    }
    let akid = trim(access_key_id);
    if !is_valid_access_key(akid) {
        return Err(ConfigError::Validation(ProfileField::AccessKeyId));
    }
    let secret = trim(secret_access_key);
    if !is_valid_secret_key(secret) {
        return Err(ConfigError::Validation(ProfileField::SecretAccessKey));
    }
    let rg = match check_region(region) {
        Some(v) => v,
        None => {
            return Err(ConfigError::Validation(ProfileField::Region));
        },
    };
    proof {
        lemma_valid_name_clean(n@);
    }
    Ok(
        (
            Profile {
                name: String::from_str(n),
                kind: ProfileKind::Standard,
                sso_start_url: None,
                sso_region: None,
                sso_account_id: None,
                sso_role_name: None,
                okta_org_domain: None,
                okta_oidc_client_id: None,
                okta_aws_account_federation_app_id: None,
                okta_aws_iam_role: None,
                okta_aws_iam_idp: None,
                region: Some(rg),
            },
            String::from_str(akid),
            String::from_str(secret),
        ),
    )
}

} // verus!
