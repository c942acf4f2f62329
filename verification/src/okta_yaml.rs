//! The federated-login settings file: a YAML-like scaffold into which one
//! entry per federated profile is appended, with substring search and
//! replacement to mend a scaffold that lacks its profiles key.

use vstd::prelude::*;
use vstd::string::*;

use crate::profile::{Profile, ProfileV};

verus! {

/// Whether `pat` stands in `s` at position `i`.
pub open spec fn match_at(s: Seq<char>, pat: Seq<char>, i: int) -> bool {
    0 <= i && i + pat.len() <= s.len() && s.subrange(i, i + pat.len()) == pat
}

/// Index of the first occurrence of `pat` in `s`, or `-1` if there is
/// none; the empty pattern matches at the start.
pub open spec fn find_sub(s: Seq<char>, pat: Seq<char>) -> int
    decreases s.len(),
{
    if pat.len() == 0 {
        0
    } else if s.len() < pat.len() {
        -1
    } else if s.take(pat.len() as int) == pat {
        0
    } else {
        let r = find_sub(s.drop_first(), pat);
        if r == -1 {
            -1
        } else {
            r + 1
        }
    }
}

/// Whether `pat` occurs anywhere in `s`.
pub open spec fn contains_sub(s: Seq<char>, pat: Seq<char>) -> bool {
    find_sub(s, pat) >= 0
}

pub proof fn lemma_find_sub(s: Seq<char>, pat: Seq<char>)
    requires
        pat.len() > 0,
    ensures
        find_sub(s, pat) >= -1,
        find_sub(s, pat) == -1 ==> forall|i: int| !match_at(s, pat, i),
        find_sub(s, pat) >= 0 ==> {
            let r = find_sub(s, pat);
            &&& match_at(s, pat, r)
            &&& forall|i: int| 0 <= i < r ==> !match_at(s, pat, i)
        },
    decreases s.len(),
{
    if s.len() < pat.len() {
        assert(forall|i: int| !match_at(s, pat, i));
    } else if s.take(pat.len() as int) == pat {
        assert(s.take(pat.len() as int) =~= s.subrange(0, pat.len() as int));
        assert(match_at(s, pat, 0));
    } else {
        let t = s.drop_first();
        lemma_find_sub(t, pat);
        assert(!match_at(s, pat, 0)) by {
            assert(s.take(pat.len() as int) =~= s.subrange(0, pat.len() as int));
        }
        if find_sub(t, pat) == -1 {
            assert forall|i: int| !match_at(s, pat, i) by {
                if i >= 1 && match_at(s, pat, i) {
                    assert(t.subrange(i - 1, i - 1 + pat.len()) =~= s.subrange(
                        i,
                        i + pat.len(),
                    ));
                    assert(match_at(t, pat, i - 1));
                    assert(false);
                }
            }
        } else {
            let r = find_sub(t, pat);
            assert(match_at(t, pat, r));
            assert(match_at(s, pat, r + 1)) by {
                assert(s.subrange(r + 1, r + 1 + pat.len()) =~= t.subrange(r, r + pat.len()));
            }
            assert forall|i: int| 0 <= i < r + 1 implies !match_at(s, pat, i) by {
                if i >= 1 && match_at(s, pat, i) {
                    assert(t.subrange(i - 1, i - 1 + pat.len()) =~= s.subrange(
                        i,
                        i + pat.len(),
                    ));
                    assert(match_at(t, pat, i - 1));
                    assert(false);
                }
            }
        }
    }
}

/// `s` with every occurrence of `pat` replaced by `rep`, scanning left to
/// right without overlap.
pub open spec fn replace_all(s: Seq<char>, pat: Seq<char>, rep: Seq<char>) -> Seq<char>
    decreases s.len(),
{
    if pat.len() == 0 {
        s
    } else {
        let i = find_sub(s, pat);
        if i < 0 || i + pat.len() > s.len() {
            s
        } else {
            s.take(i) + rep + replace_all(s.skip(i + pat.len()), pat, rep)
        }
    }
}

/// Whether `pat` stands in `s` at `i`, checked character by character.
fn match_at_index(s: &str, pat: &str, i: usize) -> (r: bool)
    requires
        i + pat@.len() <= s@.len(),
    ensures
        r == match_at(s@, pat@, i as int),
{
    let n = s.unicode_len();
    let m = pat.unicode_len();
    let mut j: usize = 0;
    while j < m
        invariant
            0 <= j <= m,
            m == pat@.len(),
            n == s@.len(),
            i + m <= n,
            forall|k: int| 0 <= k < j ==> s@[i + k] == pat@[k],
        decreases m - j,
    {
        if s.get_char(i + j) != pat.get_char(j) {
            proof {
                assert(s@.subrange(i as int, i + pat@.len()) != pat@) by {
                    assert(s@.subrange(i as int, i + pat@.len())[j as int] == s@[i + j]);
                }
            }
            return false;
        }
        j = j + 1;
    }
    proof {
        assert(s@.subrange(i as int, i + pat@.len()) =~= pat@);
    }
    true
}

/// Index of the first occurrence of `pat` in `s`, if any.
pub fn find_substring(s: &str, pat: &str) -> (r: Option<usize>)
    ensures
        r is Some ==> find_sub(s@, pat@) == r->Some_0,
        r is None ==> find_sub(s@, pat@) == -1,
{
    let n = s.unicode_len();
    let m = pat.unicode_len();
    if m == 0 {
        return Some(0);
    }
    proof {
        lemma_find_sub(s@, pat@);
    }
    if n < m {
        return None;
    }
    let mut i: usize = 0;
    while i <= n - m
        invariant
            0 <= i <= n - m + 1,
            m <= n,
            m == pat@.len(),
            n == s@.len(),
            m > 0,
            forall|k: int| 0 <= k < i ==> !match_at(s@, pat@, k),
        decreases n - i,
    {
        if match_at_index(s, pat, i) {
            proof {
                lemma_find_sub(s@, pat@);
                let r = find_sub(s@, pat@);
                if r == -1 {
                    assert(!match_at(s@, pat@, i as int));
                    assert(false);
                }
                if r < i {
                    assert(!match_at(s@, pat@, r));
                    assert(false);
                }
                if r > i {
                    assert(!match_at(s@, pat@, i as int));
                    assert(false);
                }
            }
            return Some(i);
        }
        i = i + 1;
    }
    proof {
        lemma_find_sub(s@, pat@);
        assert(forall|k: int| !match_at(s@, pat@, k)) by {
            assert(forall|k: int| n - m < k ==> !match_at(s@, pat@, k));
        }
        if find_sub(s@, pat@) >= 0 {
            assert(match_at(s@, pat@, find_sub(s@, pat@)));
        }
    }
    None
}

/// Executable form of [`contains_sub`].
pub fn contains_substring(s: &str, pat: &str) -> (r: bool)
    ensures
        r == contains_sub(s@, pat@),
{
    match find_substring(s, pat) {
        Some(i) => true,
        None => false,
    }
}

/// Executable form of [`replace_all`].
pub fn replace_substring(s: &str, pat: &str, rep: &str) -> (r: String)
    requires
        pat@.len() > 0,
    ensures
        r@ == replace_all(s@, pat@, rep@),
{
    let n = s.unicode_len();
    let m = pat.unicode_len();
    let mut out = String::new();
    let mut pos: usize = 0;
    let mut done: bool = false;
    proof {
        assert(s@.skip(0) =~= s@);
    }
    while !done
        invariant
            0 <= pos <= n,
            n == s@.len(),
            m == pat@.len(),
            m > 0,
            !done ==> replace_all(s@, pat@, rep@) == out@ + replace_all(
                s@.skip(pos as int),
                pat@,
                rep@,
            ),
            done ==> replace_all(s@, pat@, rep@) == out@,
        decreases n - pos + (if done {
            0int
        } else {
            1int
        }),
    {
        let remaining = s.substring_char(pos, n);
        match find_substring(remaining, pat) {
            None => {
                out.append(remaining);
                proof {
                    assert(replace_all(remaining@, pat@, rep@) == remaining@);
                }
                done = true;
            },
            Some(i) => {
                proof {
                    lemma_find_sub(remaining@, pat@);
                    assert(match_at(remaining@, pat@, i as int));
                }
                let piece = s.substring_char(pos, pos + i);
                out.append(piece);
                out.append(rep);
                let ghost old_pos = pos as int;
                pos = pos + i + m;
                proof {
                    let rem = s@.skip(old_pos);
                    assert(rem.take(i as int) =~= s@.subrange(old_pos, old_pos + i));
                    assert(rem.skip(i + m) =~= s@.skip(pos as int));
                    assert(replace_all(rem, pat@, rep@) == rem.take(i as int) + rep@
                        + replace_all(s@.skip(pos as int), pat@, rep@));
                }
            },
        }
    }
    out
}

/// The scaffold of a fresh settings file.
pub open spec fn okta_scaffold() -> Seq<char> {
    "---\nawscli:\n  profiles:\n"@
}

/// The text the new entry is appended to: a fresh scaffold when the file
/// is missing or lacks the top-level key, the file with its top-level key
/// completed when the profiles key is missing, else the file as it is.
pub open spec fn yaml_base(existing: Option<Seq<char>>) -> Seq<char> {
    match existing {
        None => okta_scaffold(),
        Some(c) => {
            if !contains_sub(c, "awscli:"@) {
                okta_scaffold()
            } else if !contains_sub(c, "profiles:"@) {
                replace_all(c, "awscli:"@, "awscli:\n  profiles:"@)
            } else {
                c
            }
        },
    }
}

/// One optional line of a profile's entry.
pub open spec fn yaml_opt_line(key: Seq<char>, o: Option<Seq<char>>) -> Seq<char> {
    match o {
        Some(v) => "      "@ + key + ": \""@ + v + "\"\n"@,
        None => Seq::empty(),
    }
}

/// The entry of one profile: its name, then each configured federation
/// field, quoted.
pub open spec fn yaml_entry(p: ProfileV) -> Seq<char> {
    "    "@ + p.name + ":\n"@ + yaml_opt_line("org-domain"@, p.okta_org_domain) + yaml_opt_line(
        "oidc-client-id"@,
        p.okta_oidc_client_id,
    ) + yaml_opt_line("aws-acct-fed-app-id"@, p.okta_aws_account_federation_app_id)
        + yaml_opt_line("aws-iam-role"@, p.okta_aws_iam_role) + yaml_opt_line(
        "aws-iam-idp"@,
        p.okta_aws_iam_idp,
    )
}

/// The settings text with `p`'s entry appended.
pub open spec fn spec_okta_yaml(existing: Option<Seq<char>>, p: ProfileV) -> Seq<char> {
    yaml_base(existing) + yaml_entry(p)
}

/// Append one optional entry line.
fn push_yaml_line(out: &mut String, key: &str, o: &Option<String>)
    ensures
        final(out)@ == old(out)@ + yaml_opt_line(key@, o.deep_view()),
{
    match o {
        Some(v) => {
            let ghost base = out@;
            out.append("      ");
            out.append(key);
            out.append(": \"");
            out.append(v.as_str());
            out.append("\"\n");
            proof {
                assert(out@ =~= base + yaml_opt_line(key@, o.deep_view()));
            }
        },
        None => {
            proof {
                assert(old(out)@ + Seq::<char>::empty() =~= old(out)@);
            }
        },
    }
}

/// Executable form of [`spec_okta_yaml`]: build the settings text that
/// carries the profile's entry.
pub fn okta_yaml_with_profile(existing: Option<&str>, p: &Profile) -> (r: String)
    ensures
        r@ == spec_okta_yaml(existing.deep_view(), p@),
{
    let mut out: String;
    match existing {
        None => {
            out = String::from_str("---\nawscli:\n  profiles:\n");
        },
        Some(c) => {
            if !contains_substring(c, "awscli:") {
                out = String::from_str("---\nawscli:\n  profiles:\n");
            } else if !contains_substring(c, "profiles:") {
                proof {
                    reveal_strlit("awscli:");
                }
                out = replace_substring(c, "awscli:", "awscli:\n  profiles:");
            } else {
                out = String::from_str(c);
            }
        },
    }
    let ghost base = out@;
    out.append("    ");
    out.append(p.name.as_str());
    out.append(":\n");
    proof {
        assert(out@ =~= base + ("    "@ + p@.name + ":\n"@));
    }
    let ghost e0 = base + ("    "@ + p@.name + ":\n"@);
    push_yaml_line(&mut out, "org-domain", &p.okta_org_domain);
    let ghost e1 = e0 + yaml_opt_line("org-domain"@, p@.okta_org_domain);
    push_yaml_line(&mut out, "oidc-client-id", &p.okta_oidc_client_id);
    let ghost e2 = e1 + yaml_opt_line("oidc-client-id"@, p@.okta_oidc_client_id);
    push_yaml_line(&mut out, "aws-acct-fed-app-id", &p.okta_aws_account_federation_app_id);
    let ghost e3 = e2 + yaml_opt_line(
        "aws-acct-fed-app-id"@,
        p@.okta_aws_account_federation_app_id,
    );
    push_yaml_line(&mut out, "aws-iam-role", &p.okta_aws_iam_role);
    let ghost e4 = e3 + yaml_opt_line("aws-iam-role"@, p@.okta_aws_iam_role);
    push_yaml_line(&mut out, "aws-iam-idp", &p.okta_aws_iam_idp);
    proof {
        let y0 = "    "@ + p@.name + ":\n"@;
        let l1 = yaml_opt_line("org-domain"@, p@.okta_org_domain);
        let l2 = yaml_opt_line("oidc-client-id"@, p@.okta_oidc_client_id);
        let l3 = yaml_opt_line("aws-acct-fed-app-id"@, p@.okta_aws_account_federation_app_id);
        let l4 = yaml_opt_line("aws-iam-role"@, p@.okta_aws_iam_role);
        let l5 = yaml_opt_line("aws-iam-idp"@, p@.okta_aws_iam_idp);
        assert(out@ == e4 + l5);
        crate::store::lemma_add_assoc(base, y0, l1);
        crate::store::lemma_add_assoc(base, y0 + l1, l2);
        crate::store::lemma_add_assoc(base, y0 + l1 + l2, l3);
        crate::store::lemma_add_assoc(base, y0 + l1 + l2 + l3, l4);
        crate::store::lemma_add_assoc(base, y0 + l1 + l2 + l3 + l4, l5);
        assert(out@ == base + (y0 + l1 + l2 + l3 + l4 + l5));
        assert(base == yaml_base(existing.deep_view()));
    }
    out
}

} // verus!
