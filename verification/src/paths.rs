//! Where the stores live under the user's home directory.

use vstd::prelude::*;
use vstd::string::*;

verus! {

/// The config store's path under `home`.
pub fn aws_config_path(home: &str) -> (r: String)
    ensures
        r@ == home@ + "/.aws/config"@,
{
    let mut s = String::from_str(home);
    s.append("/.aws/config");
    s
}

/// The credentials store's path under `home`.
pub fn aws_credentials_path(home: &str) -> (r: String)
    ensures
        r@ == home@ + "/.aws/credentials"@,
{
    let mut s = String::from_str(home);
    s.append("/.aws/credentials");
    s
}

/// The federated-login settings file's path under `home`.
pub fn okta_settings_path(home: &str) -> (r: String)
    ensures
        r@ == home@ + "/.okta/okta.yaml"@,
{
    let mut s = String::from_str(home);
    s.append("/.okta/okta.yaml");
    s
}

} // verus!
