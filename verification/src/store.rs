//! The config and credentials stores: how a profile is rendered as a
//! section, how a whole store text is loaded, and the append-only
//! discipline with its duplicate check.

use vstd::prelude::*;
use vstd::string::*;

use crate::error::{ConfigError, ErrV};
use crate::ini::{parse_text, sections_of_text, SectionV};
use crate::profile::{profile_of_section, Profile, ProfileV};
use crate::text::{line_split, split_lines, str_eq, trim, trimmed};

verus! {

/// The section header under which a profile is stored: the reserved name
/// `default` keeps the bare `[default]` header, every other name gets
/// `[profile <name>]`.
pub open spec fn header_of(name: Seq<char>) -> Seq<char> {
    if name == "default"@ {
        "[default]"@
    } else {
        "[profile "@ + name + "]"@
    }
}

/// The section header of the credentials store: always the bare name.
pub open spec fn cred_header_of(name: Seq<char>) -> Seq<char> {
    "["@ + name + "]"@
}

/// One `key = value` line, newline-terminated.
pub open spec fn kv_line(k: Seq<char>, v: Seq<char>) -> Seq<char> {
    k + " = "@ + v + "\n"@
}

/// The line of an optional field: nothing at all when the field is absent.
pub open spec fn opt_kv(k: Seq<char>, o: Option<Seq<char>>) -> Seq<char> {
    match o {
        Some(v) => kv_line(k, v),
        None => Seq::empty(),
    }
}

/// How many fields a section can carry.
pub open spec fn field_count() -> int {
    10
}

/// The key of the `i`-th field, in the order the store writes them.
pub open spec fn key_at(i: int) -> Seq<char> {
    if i == 0 {
        "sso_start_url"@
    } else if i == 1 {
        "sso_region"@
    } else if i == 2 {
        "sso_account_id"@
    } else if i == 3 {
        "sso_role_name"@
    } else if i == 4 {
        "okta_org_domain"@
    } else if i == 5 {
        "okta_oidc_client_id"@
    } else if i == 6 {
        "okta_aws_account_federation_app_id"@
    } else if i == 7 {
        "okta_aws_iam_role"@
    } else if i == 8 {
        "okta_aws_iam_idp"@
    } else {
        "region"@
    }
}

/// The value of the `i`-th field of `p`.
pub open spec fn field_at(p: ProfileV, i: int) -> Option<Seq<char>> {
    if i == 0 {
        p.sso_start_url
    } else if i == 1 {
        p.sso_region
    } else if i == 2 {
        p.sso_account_id
    } else if i == 3 {
        p.sso_role_name
    } else if i == 4 {
        p.okta_org_domain
    } else if i == 5 {
        p.okta_oidc_client_id
    } else if i == 6 {
        p.okta_aws_account_federation_app_id
    } else if i == 7 {
        p.okta_aws_iam_role
    } else if i == 8 {
        p.okta_aws_iam_idp
    } else {
        p.region
    }
}

/// The body lines of a section from the `i`-th field on: one line per
/// present field.
pub open spec fn render_fields_from(p: ProfileV, i: int) -> Seq<char>
    decreases field_count() - i,
{
    if i < 0 || i >= field_count() {
        Seq::empty()
    } else {
        opt_kv(key_at(i), field_at(p, i)) + render_fields_from(p, i + 1)
    }
}

/// The full text of a profile's section: header line, then the present
/// fields, in the order the store writes them.
pub open spec fn render_profile(p: ProfileV) -> Seq<char> {
    header_of(p.name) + "\n"@ + opt_kv("sso_start_url"@, p.sso_start_url) + opt_kv(
        "sso_region"@,
        p.sso_region,
    ) + opt_kv("sso_account_id"@, p.sso_account_id) + opt_kv("sso_role_name"@, p.sso_role_name)
        + opt_kv("okta_org_domain"@, p.okta_org_domain) + opt_kv(
        "okta_oidc_client_id"@,
        p.okta_oidc_client_id,
    ) + opt_kv("okta_aws_account_federation_app_id"@, p.okta_aws_account_federation_app_id)
        + opt_kv("okta_aws_iam_role"@, p.okta_aws_iam_role) + opt_kv(
        "okta_aws_iam_idp"@,
        p.okta_aws_iam_idp,
    ) + opt_kv("region"@, p.region)
}

/// Concatenation of character sequences is associative.
pub proof fn lemma_add_assoc(x: Seq<char>, y: Seq<char>, z: Seq<char>)
    ensures
        (x + y) + z == x + (y + z),
{
    assert((x + y) + z =~= x + (y + z));
}

/// The empty sequence is a right unit of concatenation.
pub proof fn lemma_add_empty(x: Seq<char>)
    ensures
        x + Seq::<char>::empty() == x,
{
    assert(x + Seq::<char>::empty() =~= x);
}

/// The section text is the header line followed by the fields, folded from
/// the first on.
pub proof fn lemma_render_profile_fields(p: ProfileV)
    ensures
        render_profile(p) == header_of(p.name) + "\n"@ + render_fields_from(p, 0),
{
    let a = header_of(p.name) + "\n"@;
    let k0 = opt_kv(key_at(0), field_at(p, 0));
    let k1 = opt_kv(key_at(1), field_at(p, 1));
    let k2 = opt_kv(key_at(2), field_at(p, 2));
    let k3 = opt_kv(key_at(3), field_at(p, 3));
    let k4 = opt_kv(key_at(4), field_at(p, 4));
    let k5 = opt_kv(key_at(5), field_at(p, 5));
    let k6 = opt_kv(key_at(6), field_at(p, 6));
    let k7 = opt_kv(key_at(7), field_at(p, 7));
    let k8 = opt_kv(key_at(8), field_at(p, 8));
    let k9 = opt_kv(key_at(9), field_at(p, 9));
    let e0 = a + k0;
    let e1 = e0 + k1;
    let e2 = e1 + k2;
    let e3 = e2 + k3;
    let e4 = e3 + k4;
    let e5 = e4 + k5;
    let e6 = e5 + k6;
    let e7 = e6 + k7;
    let e8 = e7 + k8;
    let e9 = e8 + k9;
    assert(render_profile(p) == e9);
    assert(render_fields_from(p, 10) == Seq::<char>::empty());
    lemma_add_empty(k9);
    assert(render_fields_from(p, 9) == k9);
    lemma_add_assoc(e7, k8, render_fields_from(p, 9));
    assert(e9 == e7 + render_fields_from(p, 8));
    lemma_add_assoc(e6, k7, render_fields_from(p, 8));
    assert(e9 == e6 + render_fields_from(p, 7));
    lemma_add_assoc(e5, k6, render_fields_from(p, 7));
    assert(e9 == e5 + render_fields_from(p, 6));
    lemma_add_assoc(e4, k5, render_fields_from(p, 6));
    assert(e9 == e4 + render_fields_from(p, 5));
    lemma_add_assoc(e3, k4, render_fields_from(p, 5));
    assert(e9 == e3 + render_fields_from(p, 4));
    lemma_add_assoc(e2, k3, render_fields_from(p, 4));
    assert(e9 == e2 + render_fields_from(p, 3));
    lemma_add_assoc(e1, k2, render_fields_from(p, 3));
    assert(e9 == e1 + render_fields_from(p, 2));
    lemma_add_assoc(e0, k1, render_fields_from(p, 2));
    assert(e9 == e0 + render_fields_from(p, 1));
    lemma_add_assoc(a, k0, render_fields_from(p, 1));
    assert(e9 == a + render_fields_from(p, 0));
}

/// The entry a field contributes to its parsed section: one pair when
/// present, nothing when absent.
pub open spec fn opt_entry(k: Seq<char>, o: Option<Seq<char>>) -> Seq<(Seq<char>, Seq<char>)> {
    match o {
        Some(v) => seq![(k, v)],
        None => Seq::empty(),
    }
}

/// The entries a profile's section parses back to, from the `i`-th field
/// on.
pub open spec fn entries_from(p: ProfileV, i: int) -> Seq<(Seq<char>, Seq<char>)>
    decreases field_count() - i,
{
    if i < 0 || i >= field_count() {
        Seq::empty()
    } else {
        opt_entry(key_at(i), field_at(p, i)) + entries_from(p, i + 1)
    }
}

/// The section name a profile is stored under: `default` bare, all others
/// prefixed.
pub open spec fn section_name_of(name: Seq<char>) -> Seq<char> {
    if name == "default"@ {
        "default"@
    } else {
        "profile "@ + name
    }
}

/// The section a well-formed profile renders to and parses back as.
pub open spec fn section_of(p: ProfileV) -> SectionV {
    SectionV { name: section_name_of(p.name), entries: entries_from(p, 0) }
}

/// `s`, newline-terminated if it is non-empty and is not already.
pub open spec fn with_separator(s: Seq<char>) -> Seq<char> {
    if s.len() > 0 && s[s.len() - 1] != '\n' {
        s + "\n"@
    } else {
        s
    }
}

/// The store text after appending `p` to `existing`.
pub open spec fn appended_profile(existing: Seq<char>, p: ProfileV) -> Seq<char> {
    with_separator(existing) + render_profile(p)
}

/// The credentials-store section of one static credential pair.
pub open spec fn render_credentials(name: Seq<char>, akid: Seq<char>, secret: Seq<char>) -> Seq<
    char,
> {
    cred_header_of(name) + "\n"@ + kv_line("aws_access_key_id"@, akid) + kv_line(
        "aws_secret_access_key"@,
        secret,
    )
}

/// The credentials text after appending one pair.
pub open spec fn appended_credentials(
    existing: Seq<char>,
    name: Seq<char>,
    akid: Seq<char>,
    secret: Seq<char>,
) -> Seq<char> {
    with_separator(existing) + render_credentials(name, akid, secret)
}

/// Whether some line of `s` is exactly `l` once trimmed: the duplicate
/// check matches whole bracketed headers, never substrings.
pub open spec fn text_has_trimmed_line(s: Seq<char>, l: Seq<char>) -> bool {
    exists|i: int| 0 <= i < line_split(s).len() && trimmed(line_split(s)[i]) == l
}

/// Whether `s` already holds the config-store section of `name`.
pub open spec fn has_profile_section(s: Seq<char>, name: Seq<char>) -> bool {
    text_has_trimmed_line(s, header_of(name))
}

/// Whether `s` already holds the credentials-store section of `name`.
pub open spec fn has_credentials_section(s: Seq<char>, name: Seq<char>) -> bool {
    text_has_trimmed_line(s, cred_header_of(name))
}

/// The profiles the sections describe, skipping unrelated sections.
pub open spec fn profiles_of_sections(ss: Seq<SectionV>) -> Seq<ProfileV>
    decreases ss.len(),
{
    if ss.len() == 0 {
        Seq::empty()
    } else {
        let rest = profiles_of_sections(ss.drop_first());
        match profile_of_section(ss[0]) {
            Some(p) => seq![p] + rest,
            None => rest,
        }
    }
}

/// The profiles of a whole config-store text, or `None` when it is
/// malformed.
pub open spec fn profiles_of_text(s: Seq<char>) -> Option<Seq<ProfileV>> {
    match sections_of_text(s) {
        Some(ss) => Some(profiles_of_sections(ss)),
        None => None,
    }
}

/// Whether some section of `ss` is named exactly `n`.
pub open spec fn sections_have_name(ss: Seq<SectionV>, n: Seq<char>) -> bool {
    exists|i: int| 0 <= i < ss.len() && ss[i].name == n
}

/// Executable form of [`header_of`].
pub fn render_header(name: &str) -> (r: String)
    ensures
        r@ == header_of(name@),
{
    if str_eq(name, "default") {
        String::from_str("[default]")
    } else {
        let mut s = String::from_str("[profile ");
        s.append(name);
        s.append("]");
        proof {
            assert("[profile "@ + name@ + "]"@ =~= ("[profile "@ + name@) + "]"@);
        }
        s
    }
}

/// Executable form of [`cred_header_of`].
pub fn render_cred_header(name: &str) -> (r: String)
    ensures
        r@ == cred_header_of(name@),
{
    let mut s = String::from_str("[");
    s.append(name);
    s.append("]");
    proof {
        assert("["@ + name@ + "]"@ =~= ("["@ + name@) + "]"@);
    }
    s
}

/// Append one `key = value` line for a present field.
fn push_opt_kv(out: &mut String, k: &str, o: &Option<String>)
    ensures
        final(out)@ == old(out)@ + opt_kv(k@, o.deep_view()),
{
    match o {
        Some(v) => {
            let ghost base = out@;
            out.append(k);
            out.append(" = ");
            out.append(v.as_str());
            out.append("\n");
            proof {
                assert(base + kv_line(k@, v@) =~= (((base + k@) + " = "@) + v@) + "\n"@);
            }
        },
        None => {
            proof {
                assert(old(out)@ + Seq::<char>::empty() =~= old(out)@);
            }
        },
    }
}

/// Executable form of [`render_profile`].
pub fn render_profile_text(p: &Profile) -> (r: String)
    ensures
        r@ == render_profile(p@),
{
    let mut out = render_header(p.name.as_str());
    out.append("\n");
    push_opt_kv(&mut out, "sso_start_url", &p.sso_start_url);
    push_opt_kv(&mut out, "sso_region", &p.sso_region);
    push_opt_kv(&mut out, "sso_account_id", &p.sso_account_id);
    push_opt_kv(&mut out, "sso_role_name", &p.sso_role_name);
    push_opt_kv(&mut out, "okta_org_domain", &p.okta_org_domain);
    push_opt_kv(&mut out, "okta_oidc_client_id", &p.okta_oidc_client_id);
    push_opt_kv(
        &mut out,
        "okta_aws_account_federation_app_id",
        &p.okta_aws_account_federation_app_id,
    );
    push_opt_kv(&mut out, "okta_aws_iam_role", &p.okta_aws_iam_role);
    push_opt_kv(&mut out, "okta_aws_iam_idp", &p.okta_aws_iam_idp);
    push_opt_kv(&mut out, "region", &p.region);
    proof {
        assert(out@ == render_profile(p@));
    }
    out
}

/// The section body, written out field by field.
pub proof fn lemma_render_fields_steps(p: ProfileV)
    ensures
        render_fields_from(p, 0) == opt_kv("sso_start_url"@, p.sso_start_url) + (opt_kv(
            "sso_region"@,
            p.sso_region,
        ) + (opt_kv("sso_account_id"@, p.sso_account_id) + (opt_kv(
            "sso_role_name"@,
            p.sso_role_name,
        ) + (opt_kv("okta_org_domain"@, p.okta_org_domain) + (opt_kv(
            "okta_oidc_client_id"@,
            p.okta_oidc_client_id,
        ) + (opt_kv(
            "okta_aws_account_federation_app_id"@,
            p.okta_aws_account_federation_app_id,
        ) + (opt_kv("okta_aws_iam_role"@, p.okta_aws_iam_role) + (opt_kv(
            "okta_aws_iam_idp"@,
            p.okta_aws_iam_idp,
        ) + opt_kv("region"@, p.region))))))))),
{
    assert(render_fields_from(p, 10) == Seq::<char>::empty());
    assert(render_fields_from(p, 9) == opt_kv("region"@, p.region) + Seq::<char>::empty());
    assert(render_fields_from(p, 9) =~= opt_kv("region"@, p.region));
    assert(render_fields_from(p, 8) == opt_kv("okta_aws_iam_idp"@, p.okta_aws_iam_idp)
        + render_fields_from(p, 9));
    assert(render_fields_from(p, 7) == opt_kv("okta_aws_iam_role"@, p.okta_aws_iam_role)
        + render_fields_from(p, 8));
    assert(render_fields_from(p, 6) == opt_kv(
        "okta_aws_account_federation_app_id"@,
        p.okta_aws_account_federation_app_id,
    ) + render_fields_from(p, 7));
    assert(render_fields_from(p, 5) == opt_kv("okta_oidc_client_id"@, p.okta_oidc_client_id)
        + render_fields_from(p, 6));
    assert(render_fields_from(p, 4) == opt_kv("okta_org_domain"@, p.okta_org_domain)
        + render_fields_from(p, 5));
    assert(render_fields_from(p, 3) == opt_kv("sso_role_name"@, p.sso_role_name)
        + render_fields_from(p, 4));
    assert(render_fields_from(p, 2) == opt_kv("sso_account_id"@, p.sso_account_id)
        + render_fields_from(p, 3));
    assert(render_fields_from(p, 1) == opt_kv("sso_region"@, p.sso_region) + render_fields_from(
        p,
        2,
    ));
    assert(render_fields_from(p, 0) == opt_kv("sso_start_url"@, p.sso_start_url)
        + render_fields_from(p, 1));
}

/// Whether some line of `s`, trimmed, is exactly `l`.
pub fn contains_trimmed_line(s: &str, l: &str) -> (r: bool)
    ensures
        r == text_has_trimmed_line(s@, l@),
{
    let lines = split_lines(s);
    let ghost lsv = line_split(s@);
    proof {
        assert(lsv.len() == lines@.len());
    }
    let mut i: usize = 0;
    while i < lines.len()
        invariant
            0 <= i <= lines.len(),
            lsv == line_split(s@),
            lines.deep_view() == lsv,
            lsv.len() == lines@.len(),
            forall|k: int| 0 <= k < i ==> trimmed(lsv[k]) != l@,
        decreases lines.len() - i,
    {
        proof {
            assert(lines.deep_view()[i as int] == lines@[i as int].deep_view());
            assert(lines@[i as int]@ == lsv[i as int]);
        }
        let li = lines[i].as_str();
        let tl = trim(li);
        if str_eq(tl, l) {
            proof {
                assert(0 <= i < lsv.len());
                assert(li@ == lsv[i as int]);
                assert(tl@ == trimmed(lsv[i as int]));
                assert(trimmed(line_split(s@)[i as int]) == l@);
                assert(text_has_trimmed_line(s@, l@));
            }
            return true;
        }
        i = i + 1;
    }
    false
}

/// Load every profile from a config-store text. A malformed text is a
/// parse error; a text of only blank lines holds no profiles.
pub fn load_profiles(content: &str) -> (r: Result<Vec<Profile>, ConfigError>)
    ensures
        profiles_of_text(content@) is Some ==> r is Ok && r->Ok_0.deep_view() == profiles_of_text(
            content@,
        )->Some_0,
        profiles_of_text(content@) is None ==> r is Err && r->Err_0@ == ErrV::Parse,
{
    let sections = match parse_text(content) {
        Some(ss) => ss,
        None => {
            return Err(ConfigError::Parse);
        },
    };
    let ghost ssv = sections.deep_view();
    let mut out: Vec<Profile> = Vec::new();
    let mut i: usize = 0;
    proof {
        assert(ssv.skip(0) =~= ssv);
        assert(out.deep_view() =~= Seq::<ProfileV>::empty());
    }
    while i < sections.len()
        invariant
            0 <= i <= sections.len(),
            sections.deep_view() == ssv,
            profiles_of_sections(ssv) == out.deep_view() + profiles_of_sections(
                ssv.skip(i as int),
            ),
        decreases sections.len() - i,
    {
        proof {
            let suf = ssv.skip(i as int);
            assert(suf[0] == ssv[i as int]);
            assert(suf.drop_first() =~= ssv.skip(i as int + 1));
            assert(sections@[i as int].deep_view() == ssv[i as int]);
        }
        let ghost old_out = out.deep_view();
        match crate::profile::section_profile(&sections[i]) {
            Some(p) => {
                let ghost pv = p@;
                out.push(p);
                proof {
                    assert(out.deep_view() =~= old_out + seq![pv]);
                    assert(old_out + (seq![pv] + profiles_of_sections(ssv.skip(i as int + 1)))
                        =~= (old_out + seq![pv]) + profiles_of_sections(ssv.skip(i as int + 1)));
                }
            },
            None => {},
        }
        i = i + 1;
    }
    proof {
        assert(ssv.skip(sections.len() as int) =~= Seq::<SectionV>::empty());
        assert(out.deep_view() + Seq::<ProfileV>::empty() =~= out.deep_view());
    }
    Ok(out)
}

/// Append the section of `p` to the config-store text `existing`.
///
/// Fails, and leaves nothing to write, exactly when a section header for
/// `p`'s name — matched as a whole bracketed line — is already there.
pub fn append_profile(existing: &str, p: &Profile) -> (r: Result<String, ConfigError>)
    ensures
        has_profile_section(existing@, p@.name) ==> r is Err && r->Err_0@ == ErrV::DuplicateName(
            p@.name,
        ),
        !has_profile_section(existing@, p@.name) ==> r is Ok && r->Ok_0@ == appended_profile(
            existing@,
            p@,
        ),
{
    let header = render_header(p.name.as_str());
    if contains_trimmed_line(existing, header.as_str()) {
        return Err(ConfigError::DuplicateName(p.name.clone()));
    }
    let mut out = String::from_str(existing);
    let n = existing.unicode_len();
    if n > 0 && existing.get_char(n - 1) != '\n' {
        out.append("\n");
    }
    let body = render_profile_text(p);
    out.append(body.as_str());
    Ok(out)
}

/// Append one static credential pair to the credentials-store text.
///
/// Fails exactly when a bare `[name]` header — matched as a whole bracketed
/// line — is already there.
pub fn append_credentials(
    existing: &str,
    name: &str,
    access_key_id: &str,
    secret_access_key: &str,
) -> (r: Result<String, ConfigError>)
    ensures
        has_credentials_section(existing@, name@) ==> r is Err && r->Err_0@ == ErrV::DuplicateName(
            name@,
        ),
        !has_credentials_section(existing@, name@) ==> r is Ok && r->Ok_0@ == appended_credentials(
            existing@,
            name@,
            access_key_id@,
            secret_access_key@,
        ),
{
    let header = render_cred_header(name);
    if contains_trimmed_line(existing, header.as_str()) {
        return Err(ConfigError::DuplicateName(String::from_str(name)));
    }
    let mut out = String::from_str(existing);
    let n = existing.unicode_len();
    if n > 0 && existing.get_char(n - 1) != '\n' {
        out.append("\n");
    }
    let ghost base = out@;
    out.append(header.as_str());
    out.append("\n");
    out.append("aws_access_key_id");
    out.append(" = ");
    out.append(access_key_id);
    out.append("\n");
    out.append("aws_secret_access_key");
    out.append(" = ");
    out.append(secret_access_key);
    out.append("\n");
    proof {
        assert(out@ =~= base + render_credentials(name@, access_key_id@, secret_access_key@));
    }
    Ok(out)
}

/// Check that the credentials store holds a section for `name`: the
/// standard login flow needs nothing more. A malformed credentials text is
/// a parse error; a missing section is a credentials-not-found error.
pub fn verify_credentials_text(content: &str, name: &str) -> (r: Result<(), ConfigError>)
    ensures
        sections_of_text(content@) is None ==> r is Err && r->Err_0@ == ErrV::Parse,
        sections_of_text(content@) is Some && sections_have_name(
            sections_of_text(content@)->Some_0,
            name@,
        ) ==> r is Ok,
        sections_of_text(content@) is Some && !sections_have_name(
            sections_of_text(content@)->Some_0,
            name@,
        ) ==> r is Err && r->Err_0@ == ErrV::CredentialsNotFound(name@),
{
    let sections = match parse_text(content) {
        Some(ss) => ss,
        None => {
            return Err(ConfigError::Parse);
        },
    };
    let ghost ssv = sections.deep_view();
    proof {
        assert(ssv.len() == sections@.len());
    }
    let mut i: usize = 0;
    while i < sections.len()
        invariant
            0 <= i <= sections.len(),
            sections_of_text(content@) == Some(ssv),
            sections.deep_view() == ssv,
            ssv.len() == sections@.len(),
            forall|k: int| 0 <= k < i ==> ssv[k].name != name@,
        decreases sections.len() - i,
    {
        proof {
            assert(sections.deep_view()[i as int] == sections@[i as int].deep_view());
        }
        if str_eq(sections[i].name.as_str(), name) {
            proof {
                assert(ssv[i as int].name == name@);
                assert(sections_have_name(ssv, name@));
            }
            return Ok(());
        }
        i = i + 1;
    }
    Err(ConfigError::CredentialsNotFound(String::from_str(name)))
}

} // verus!
