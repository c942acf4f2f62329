//! The in-memory model of one named profile, its well-formedness, and how a
//! section of the config store becomes a profile.

use vstd::prelude::*;
use vstd::string::*;

use crate::ini::{entry_lookup, entry_value, has_entry_key, Section, SectionV};
use crate::text::{str_eq, trimmed};

verus! {

/// How a profile authenticates, inferred from which designator keys its
/// section carries.
#[derive(Clone, Copy, PartialEq, Eq, Debug, Structural)]
pub enum ProfileKind {
    /// Static long-lived credential pair in the credentials store.
    Standard,
    /// AWS single-sign-on portal flow.
    Sso,
    /// Third-party identity-federation flow.
    Federated,
}

/// Ghost form of [`Profile`].
#[verifier::ext_equal]
pub struct ProfileV {
    pub name: Seq<char>,
    pub kind: ProfileKind,
    pub sso_start_url: Option<Seq<char>>,
    pub sso_region: Option<Seq<char>>,
    pub sso_account_id: Option<Seq<char>>,
    pub sso_role_name: Option<Seq<char>>,
    pub okta_org_domain: Option<Seq<char>>,
    pub okta_oidc_client_id: Option<Seq<char>>,
    pub okta_aws_account_federation_app_id: Option<Seq<char>>,
    pub okta_aws_iam_role: Option<Seq<char>>,
    pub okta_aws_iam_idp: Option<Seq<char>>,
    pub region: Option<Seq<char>>,
}

/// One named profile. Absent optional fields are never written to the
/// store.
pub struct Profile {
    pub name: String,
    pub kind: ProfileKind,
    pub sso_start_url: Option<String>,
    pub sso_region: Option<String>,
    pub sso_account_id: Option<String>,
    pub sso_role_name: Option<String>,
    pub okta_org_domain: Option<String>,
    pub okta_oidc_client_id: Option<String>,
    pub okta_aws_account_federation_app_id: Option<String>,
    pub okta_aws_iam_role: Option<String>,
    pub okta_aws_iam_idp: Option<String>,
    pub region: Option<String>,
}

impl View for Profile {
    type V = ProfileV;

    open spec fn view(&self) -> ProfileV {
        ProfileV {
            name: self.name@,
            kind: self.kind,
            sso_start_url: self.sso_start_url.deep_view(),
            sso_region: self.sso_region.deep_view(),
            sso_account_id: self.sso_account_id.deep_view(),
            sso_role_name: self.sso_role_name.deep_view(),
            okta_org_domain: self.okta_org_domain.deep_view(),
            okta_oidc_client_id: self.okta_oidc_client_id.deep_view(),
            okta_aws_account_federation_app_id: self.okta_aws_account_federation_app_id.deep_view(),
            okta_aws_iam_role: self.okta_aws_iam_role.deep_view(),
            okta_aws_iam_idp: self.okta_aws_iam_idp.deep_view(),
            region: self.region.deep_view(),
        }
    }
}

impl DeepView for Profile {
    type V = ProfileV;

    open spec fn deep_view(&self) -> ProfileV {
        self.view()
    }
}

/// A character allowed in a profile name: ASCII letters, digits, hyphen,
/// underscore.
pub open spec fn valid_name_char(c: char) -> bool {
    (97 <= c as u32 && c as u32 <= 122) || (65 <= c as u32 && c as u32 <= 90) || (48 <= c as u32
        && c as u32 <= 57) || c == '-' || c == '_'
}

/// A usable profile name: non-empty and made of allowed characters only.
pub open spec fn valid_profile_name(s: Seq<char>) -> bool {
    s.len() > 0 && forall|i: int| 0 <= i < s.len() ==> valid_name_char(s[i])
}

/// A value that survives the store round trip unchanged: no newline, no
/// space padding at either end.
pub open spec fn clean_value(v: Seq<char>) -> bool {
    trimmed(v) == v && forall|i: int| 0 <= i < v.len() ==> v[i] != '\n'
}

/// [`clean_value`], lifted to an optional field.
pub open spec fn clean_opt(o: Option<Seq<char>>) -> bool {
    match o {
        Some(v) => clean_value(v),
        None => true,
    }
}

/// A well-formed profile: valid name, kind consistent with the designator
/// fields, and every stored value clean.
pub open spec fn wf_profile(p: ProfileV) -> bool {
    &&& valid_profile_name(p.name)
    &&& (p.kind == ProfileKind::Federated <==> p.okta_org_domain is Some)
    &&& (p.kind == ProfileKind::Sso <==> p.okta_org_domain is None && p.sso_start_url is Some)
    &&& clean_opt(p.sso_start_url)
    &&& clean_opt(p.sso_region)
    &&& clean_opt(p.sso_account_id)
    &&& clean_opt(p.sso_role_name)
    &&& clean_opt(p.okta_org_domain)
    &&& clean_opt(p.okta_oidc_client_id)
    &&& clean_opt(p.okta_aws_account_federation_app_id)
    &&& clean_opt(p.okta_aws_iam_role)
    &&& clean_opt(p.okta_aws_iam_idp)
    &&& clean_opt(p.region)
}

impl Profile {
    /// Well-formedness of the executable profile.
    pub open spec fn wf(&self) -> bool {
        wf_profile(self@)
    }
}

/// The kind a section's keys designate: the federation designator wins,
/// then the SSO designator, else the profile is standard.
pub open spec fn section_kind(es: Seq<(Seq<char>, Seq<char>)>) -> ProfileKind {
    if has_entry_key(es, "okta_org_domain"@) {
        ProfileKind::Federated
    } else if has_entry_key(es, "sso_start_url"@) {
        ProfileKind::Sso
    } else {
        ProfileKind::Standard
    }
}

/// Classification looks only at which designator keys are present: two
/// entry lists that agree on those classify alike, whatever the order or
/// the rest of their keys.
pub proof fn lemma_section_kind_by_keys(
    es1: Seq<(Seq<char>, Seq<char>)>,
    es2: Seq<(Seq<char>, Seq<char>)>,
)
    requires
        has_entry_key(es1, "okta_org_domain"@) == has_entry_key(es2, "okta_org_domain"@),
        has_entry_key(es1, "sso_start_url"@) == has_entry_key(es2, "sso_start_url"@),
    ensures
        section_kind(es1) == section_kind(es2),
{
}

/// Adding an SSO start-url entry, at any position, to a section that has
/// no federation designator reclassifies it as SSO, whatever its other
/// keys and their order.
pub proof fn lemma_sso_key_reclassifies(
    es1: Seq<(Seq<char>, Seq<char>)>,
    es2: Seq<(Seq<char>, Seq<char>)>,
    v: Seq<char>,
)
    requires
        !has_entry_key(es1 + es2, "okta_org_domain"@),
    ensures
        section_kind(es1 + seq![("sso_start_url"@, v)] + es2) == ProfileKind::Sso,
{
    let e = seq![("sso_start_url"@, v)];
    let full = es1 + e + es2;
    crate::ini::lemma_entry_lookup_concat(es1, es2, "okta_org_domain"@);
    crate::ini::lemma_entry_lookup_concat(es1 + e, es2, "okta_org_domain"@);
    crate::ini::lemma_entry_lookup_concat(es1, e, "okta_org_domain"@);
    crate::ini::lemma_entry_lookup_concat(es1 + e, es2, "sso_start_url"@);
    crate::ini::lemma_entry_lookup_concat(es1, e, "sso_start_url"@);
    assert(e.last() == ("sso_start_url"@, v));
    assert(e.drop_last() =~= Seq::<(Seq<char>, Seq<char>)>::empty());
    assert(entry_lookup(Seq::<(Seq<char>, Seq<char>)>::empty(), "okta_org_domain"@) is None);
    reveal_strlit("sso_start_url");
    reveal_strlit("okta_org_domain");
    assert("sso_start_url"@.len() != "okta_org_domain"@.len());
    assert(entry_lookup(e, "okta_org_domain"@) is None);
    assert(entry_lookup(e, "sso_start_url"@) == Some(v));
    assert(has_entry_key(full, "sso_start_url"@));
    assert(!has_entry_key(full, "okta_org_domain"@));
}

/// Executable form of [`section_kind`].
pub fn classify_section(sec: &Section) -> (r: ProfileKind)
    ensures
        r == section_kind(sec@.entries),
{
    if entry_value(&sec.entries, "okta_org_domain").is_some() {
        ProfileKind::Federated
    } else if entry_value(&sec.entries, "sso_start_url").is_some() {
        ProfileKind::Sso
    } else {
        ProfileKind::Standard
    }
}

/// The profile name a section name stands for: `default` itself, the rest
/// of `profile <name>`, or nothing for an unrelated section.
pub open spec fn profile_name_of_section(sn: Seq<char>) -> Option<Seq<char>> {
    if sn == "default"@ {
        Some(sn)
    } else if sn.len() >= "profile "@.len() && sn.take("profile "@.len() as int)
        == "profile "@ {
        Some(sn.skip("profile "@.len() as int))
    } else {
        None
    }
}

/// Executable form of [`profile_name_of_section`].
pub fn profile_name_of(section_name: &str) -> (r: Option<String>)
    ensures
        match profile_name_of_section(section_name@) {
            Some(n) => r is Some && r->Some_0@ == n,
            None => r is None,
        },
{
    if str_eq(section_name, "default") {
        return Some(String::from_str(section_name));
    }
    let pre = "profile ";
    let pn = pre.unicode_len();
    let n = section_name.unicode_len();
    if n >= pn && str_eq(section_name.substring_char(0, pn), pre) {
        proof {
            assert(section_name@.take(pn as int) =~= section_name@.subrange(0, pn as int));
            assert(section_name@.skip(pn as int) =~= section_name@.subrange(
                pn as int,
                n as int,
            ));
        }
        Some(String::from_str(section_name.substring_char(pn, n)))
    } else {
        proof {
            if section_name@.len() >= pre@.len() {
                assert(section_name@.take(pn as int) =~= section_name@.subrange(0, pn as int));
            }
        }
        None
    }
}

/// The profile a section of the config store describes, or `None` when the
/// section name concerns no profile and is ignored.
pub open spec fn profile_of_section(s: SectionV) -> Option<ProfileV> {
    match profile_name_of_section(s.name) {
        None => None,
        Some(n) => Some(
            ProfileV {
                name: n,
                kind: section_kind(s.entries),
                sso_start_url: entry_lookup(s.entries, "sso_start_url"@),
                sso_region: entry_lookup(s.entries, "sso_region"@),
                sso_account_id: entry_lookup(s.entries, "sso_account_id"@),
                sso_role_name: entry_lookup(s.entries, "sso_role_name"@),
                okta_org_domain: entry_lookup(s.entries, "okta_org_domain"@),
                okta_oidc_client_id: entry_lookup(s.entries, "okta_oidc_client_id"@),
                okta_aws_account_federation_app_id: entry_lookup(
                    s.entries,
                    "okta_aws_account_federation_app_id"@,
                ),
                okta_aws_iam_role: entry_lookup(s.entries, "okta_aws_iam_role"@),
                okta_aws_iam_idp: entry_lookup(s.entries, "okta_aws_iam_idp"@),
                region: entry_lookup(s.entries, "region"@),
            },
        ),
    }
}

/// Executable form of [`profile_of_section`].
pub fn section_profile(sec: &Section) -> (r: Option<Profile>)
    ensures
        match profile_of_section(sec@) {
            Some(p) => r is Some && r->Some_0@ == p,
            None => r is None,
        },
{
    match profile_name_of(sec.name.as_str()) {
        None => None,
        Some(n) => Some(
            Profile {
                name: n,
                kind: classify_section(sec),
                sso_start_url: entry_value(&sec.entries, "sso_start_url"),
                sso_region: entry_value(&sec.entries, "sso_region"),
                sso_account_id: entry_value(&sec.entries, "sso_account_id"),
                sso_role_name: entry_value(&sec.entries, "sso_role_name"),
                okta_org_domain: entry_value(&sec.entries, "okta_org_domain"),
                okta_oidc_client_id: entry_value(&sec.entries, "okta_oidc_client_id"),
                okta_aws_account_federation_app_id: entry_value(
                    &sec.entries,
                    "okta_aws_account_federation_app_id",
                ),
                okta_aws_iam_role: entry_value(&sec.entries, "okta_aws_iam_role"),
                okta_aws_iam_idp: entry_value(&sec.entries, "okta_aws_iam_idp"),
                region: entry_value(&sec.entries, "region"),
            },
        ),
    }
}

} // verus!
