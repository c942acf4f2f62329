//! The error kinds of the library, with their ghost form and the
//! human-readable message of each.

use vstd::prelude::*;
use vstd::string::*;

verus! {

/// A field of a profile, named in validation and completeness errors.
#[derive(Clone, Copy, PartialEq, Eq, Debug, Structural)]
pub enum ProfileField {
    Name,
    AccessKeyId,
    SecretAccessKey,
    Region,
    SsoStartUrl,
    SsoRegion,
    SsoAccountId,
    SsoRoleName,
    OktaOrgDomain,
    OktaOidcClientId,
    AwsFederationAppId,
    AwsIamRole,
    AwsIamIdp,
}

/// Ghost form of [`ConfigError`].
pub enum ErrV {
    Io,
    Parse,
    DuplicateName(Seq<char>),
    Validation(ProfileField),
    ProfileNotFound(Seq<char>),
    CredentialsNotFound(Seq<char>),
    ConfigIncomplete(ProfileField),
    LoginFailed,
    ShellExit,
}

/// Everything that can go wrong in the library or around it.
#[derive(Debug)]
pub enum ConfigError {
    /// The stores could not be read or written.
    Io,
    /// A store file is not well-formed sectioned key = value text.
    Parse,
    /// A section for this profile name already exists in the target file.
    DuplicateName(String),
    /// A prompted field is empty or badly formed.
    Validation(ProfileField),
    /// No profile of this name is in the store.
    ProfileNotFound(String),
    /// The credentials store has no section for this profile name.
    CredentialsNotFound(String),
    /// A field required for the federated login flow is not configured.
    ConfigIncomplete(ProfileField),
    /// The external login process exited with a non-zero status.
    LoginFailed,
    /// The spawned shell exited with a non-zero status.
    ShellExit,
}

impl View for ConfigError {
    type V = ErrV;

    open spec fn view(&self) -> ErrV {
        match self {
            ConfigError::Io => ErrV::Io,
            ConfigError::Parse => ErrV::Parse,
            ConfigError::DuplicateName(n) => ErrV::DuplicateName(n@),
            ConfigError::Validation(f) => ErrV::Validation(*f),
            ConfigError::ProfileNotFound(n) => ErrV::ProfileNotFound(n@),
            ConfigError::CredentialsNotFound(n) => ErrV::CredentialsNotFound(n@),
            ConfigError::ConfigIncomplete(f) => ErrV::ConfigIncomplete(*f),
            ConfigError::LoginFailed => ErrV::LoginFailed,
            ConfigError::ShellExit => ErrV::ShellExit,
        }
    }
}

impl DeepView for ConfigError {
    type V = ErrV;

    open spec fn deep_view(&self) -> ErrV {
        self.view()
    }
}

/// The name of `f` as it appears in messages.
pub open spec fn spec_field_name(f: ProfileField) -> Seq<char> {
    match f {
        ProfileField::Name => "Profile name"@,
        ProfileField::AccessKeyId => "Access Key ID"@,
        ProfileField::SecretAccessKey => "Secret Access Key"@,
        ProfileField::Region => "Region"@,
        ProfileField::SsoStartUrl => "SSO start URL"@,
        ProfileField::SsoRegion => "SSO region"@,
        ProfileField::SsoAccountId => "AWS account ID"@,
        ProfileField::SsoRoleName => "SSO role name"@,
        ProfileField::OktaOrgDomain => "Okta org domain"@,
        ProfileField::OktaOidcClientId => "OIDC client ID"@,
        ProfileField::AwsFederationAppId => "AWS Account Federation App ID"@,
        ProfileField::AwsIamRole => "AWS IAM Role ARN"@,
        ProfileField::AwsIamIdp => "AWS IAM Identity Provider ARN"@,
    }
}

/// The message of the error `e`.
pub open spec fn spec_message(e: ErrV) -> Seq<char> {
    match e {
        ErrV::Io => "Failed to access the configuration files"@,
        ErrV::Parse => "Failed to parse the configuration file"@,
        ErrV::DuplicateName(n) => "Profile '"@ + n + "' already exists"@,
        ErrV::Validation(f) => spec_field_name(f) + " is missing or invalid"@,
        ErrV::ProfileNotFound(n) => "Profile '"@ + n + "' not found"@,
        ErrV::CredentialsNotFound(n) => "Profile '"@ + n + "' not found in credentials file"@,
        ErrV::ConfigIncomplete(f) => spec_field_name(f) + " is required but not configured"@,
        ErrV::LoginFailed => "Authentication failed"@,
        ErrV::ShellExit => "Shell exited with error"@,
    }
}

impl ConfigError {
    /// Executable form of [`spec_field_name`].
    pub fn field_name(f: ProfileField) -> (r: String)
        ensures
            r@ == spec_field_name(f),
    {
        match f {
            ProfileField::Name => String::from_str("Profile name"),
            ProfileField::AccessKeyId => String::from_str("Access Key ID"),
            ProfileField::SecretAccessKey => String::from_str("Secret Access Key"),
            ProfileField::Region => String::from_str("Region"),
            ProfileField::SsoStartUrl => String::from_str("SSO start URL"),
            ProfileField::SsoRegion => String::from_str("SSO region"),
            ProfileField::SsoAccountId => String::from_str("AWS account ID"),
            ProfileField::SsoRoleName => String::from_str("SSO role name"),
            ProfileField::OktaOrgDomain => String::from_str("Okta org domain"),
            ProfileField::OktaOidcClientId => String::from_str("OIDC client ID"),
            ProfileField::AwsFederationAppId => String::from_str("AWS Account Federation App ID"),
            ProfileField::AwsIamRole => String::from_str("AWS IAM Role ARN"),
            ProfileField::AwsIamIdp => String::from_str("AWS IAM Identity Provider ARN"),
        }
    }

    /// The human-readable message of this error.
    pub fn message(&self) -> (r: String)
        ensures
            r@ == spec_message(self@),
    {
        match self {
            ConfigError::Io => String::from_str("Failed to access the configuration files"),
            ConfigError::Parse => String::from_str("Failed to parse the configuration file"),
            ConfigError::DuplicateName(n) => {
                let mut s = String::from_str("Profile '");
                s.append(n.as_str());
                s.append("' already exists");
                s
            },
            ConfigError::Validation(f) => {
                let mut s = Self::field_name(*f);
                s.append(" is missing or invalid");
                s
            },
            ConfigError::ProfileNotFound(n) => {
                let mut s = String::from_str("Profile '");
                s.append(n.as_str());
                s.append("' not found");
                s
            },
            ConfigError::CredentialsNotFound(n) => {
                let mut s = String::from_str("Profile '");
                s.append(n.as_str());
                s.append("' not found in credentials file");
                s
            },
            ConfigError::ConfigIncomplete(f) => {
                let mut s = Self::field_name(*f);
                s.append(" is required but not configured");
                s
            },
            ConfigError::LoginFailed => String::from_str("Authentication failed"),
            ConfigError::ShellExit => String::from_str("Shell exited with error"),
        }
    }
}

/// The message of a missing-profile error carries the requested name: it
/// stands right after the opening quote.
pub proof fn lemma_not_found_message_names_profile(n: Seq<char>)
    ensures
        spec_message(ErrV::ProfileNotFound(n)).subrange(
            "Profile '"@.len() as int,
            "Profile '"@.len() + n.len() as int,
        ) == n,
{
    let pre = "Profile '"@;
    assert((pre + n + "' not found"@).subrange(pre.len() as int, pre.len() + n.len() as int) =~= n);
}

} // verus!
