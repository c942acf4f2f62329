//! The shell launcher's environment, the interactive menu's labels, and
//! resolving a chosen or requested profile name.

use vstd::prelude::*;
use vstd::string::*;

use crate::error::{ConfigError, ErrV};
use crate::ini::entries_view;
use crate::profile::{Profile, ProfileKind, ProfileV};
use crate::text::{find_ch, find_char, str_eq, trim, trimmed};

verus! {

/// One retained environment pair, or nothing when the variable is unset.
pub open spec fn keep_var(k: Seq<char>, o: Option<Seq<char>>) -> Seq<(Seq<char>, Seq<char>)> {
    match o {
        Some(v) => seq![(k, v)],
        None => Seq::empty(),
    }
}

/// The prompt marker of an authenticated session.
pub open spec fn prompt_prefix(name: Seq<char>) -> Seq<char> {
    "(aws:"@ + name + ") "@
}

/// The prompt of the spawned shell: the marker before the old prompt, or
/// before a plain default when none was set.
pub open spec fn prompt_value(name: Seq<char>, ps1: Option<Seq<char>>) -> Seq<char> {
    match ps1 {
        Some(v) => prompt_prefix(name) + v,
        None => prompt_prefix(name) + "\\$ "@,
    }
}

/// The child environment of the spawned shell: the credential map, the
/// retained `PATH`, `HOME` and `USER`, and the marked prompt.
pub open spec fn spec_shell_env(
    name: Seq<char>,
    creds: Seq<(Seq<char>, Seq<char>)>,
    path: Option<Seq<char>>,
    home: Option<Seq<char>>,
    user: Option<Seq<char>>,
    ps1: Option<Seq<char>>,
) -> Seq<(Seq<char>, Seq<char>)> {
    creds + keep_var("PATH"@, path) + keep_var("HOME"@, home) + keep_var("USER"@, user) + seq![
        ("PS1"@, prompt_value(name, ps1)),
    ]
}

/// The shell to spawn: the configured one, or the fallback.
pub fn shell_command(shell: Option<&str>) -> (r: String)
    ensures
        match shell {
            Some(sh) => r@ == sh@,
            None => r@ == "/bin/bash"@,
        },
{
    match shell {
        Some(sh) => String::from_str(sh),
        None => String::from_str("/bin/bash"),
    }
}

/// Append one environment pair.
fn push_pair(env: &mut Vec<(String, String)>, k: &str, v: &str)
    ensures
        entries_view(final(env)@) == entries_view(old(env)@).push((k@, v@)),
{
    env.push((String::from_str(k), String::from_str(v)));
    proof {
        assert(entries_view(env@) =~= entries_view(old(env)@).push((k@, v@)));
    }
}

/// Append a retained variable when it is set.
fn push_kept(env: &mut Vec<(String, String)>, k: &str, o: Option<&str>)
    ensures
        entries_view(final(env)@) == entries_view(old(env)@) + keep_var(k@, o.deep_view()),
{
    match o {
        Some(v) => {
            push_pair(env, k, v);
            proof {
                assert(entries_view(env@) =~= entries_view(old(env)@) + keep_var(
                    k@,
                    o.deep_view(),
                ));
            }
        },
        None => {
            proof {
                assert(entries_view(env@) =~= entries_view(old(env)@) + keep_var(
                    k@,
                    o.deep_view(),
                ));
            }
        },
    }
}

/// Executable form of [`spec_shell_env`].
pub fn shell_env(
    profile_name: &str,
    creds: &Vec<(String, String)>,
    path: Option<&str>,
    home: Option<&str>,
    user: Option<&str>,
    ps1: Option<&str>,
) -> (r: Vec<(String, String)>)
    ensures
        entries_view(r@) == spec_shell_env(
            profile_name@,
            entries_view(creds@),
            path.deep_view(),
            home.deep_view(),
            user.deep_view(),
            ps1.deep_view(),
        ),
{
    let mut env: Vec<(String, String)> = Vec::new();
    let mut i: usize = 0;
    proof {
        assert(entries_view(env@) =~= entries_view(creds@).take(0));
    }
    while i < creds.len()
        invariant
            0 <= i <= creds@.len(),
            entries_view(env@) == entries_view(creds@).take(i as int),
        decreases creds.len() - i,
    {
        let k = creds[i].0.clone();
        let v = creds[i].1.clone();
        let ghost kk = k@;
        let ghost vv = v@;
        let ghost prev = entries_view(env@);
        env.push((k, v));
        proof {
            assert(entries_view(env@) =~= prev.push((kk, vv)));
            assert(entries_view(creds@)[i as int] == (kk, vv));
            assert(entries_view(creds@).take(i as int + 1) =~= prev.push((kk, vv)));
        }
        i = i + 1;
    }
    let ghost g0 = entries_view(creds@);
    proof {
        assert(entries_view(creds@).take(creds@.len() as int) =~= g0);
    }
    push_kept(&mut env, "PATH", path);
    let ghost g1 = g0 + keep_var("PATH"@, path.deep_view());
    push_kept(&mut env, "HOME", home);
    let ghost g2 = g1 + keep_var("HOME"@, home.deep_view());
    push_kept(&mut env, "USER", user);
    let ghost g3 = g2 + keep_var("USER"@, user.deep_view());
    let mut ps1_value = String::from_str("(aws:");
    ps1_value.append(profile_name);
    ps1_value.append(") ");
    match ps1 {
        Some(old_ps1) => {
            ps1_value.append(old_ps1);
        },
        None => {
            ps1_value.append("\\$ ");
        },
    }
    proof {
        assert(ps1_value@ =~= prompt_value(profile_name@, ps1.deep_view()));
    }
    env.push((String::from_str("PS1"), ps1_value));
    proof {
        assert(entries_view(env@) =~= g3 + seq![
            ("PS1"@, prompt_value(profile_name@, ps1.deep_view())),
        ]);
        assert(g3 + seq![("PS1"@, prompt_value(profile_name@, ps1.deep_view()))]
            == spec_shell_env(
            profile_name@,
            entries_view(creds@),
            path.deep_view(),
            home.deep_view(),
            user.deep_view(),
            ps1.deep_view(),
        ));
    }
    env
}

/// The menu tag of a profile kind.
pub open spec fn kind_tag(k: ProfileKind) -> Seq<char> {
    match k {
        ProfileKind::Standard => "Standard"@,
        ProfileKind::Sso => "SSO"@,
        ProfileKind::Federated => "Okta"@,
    }
}

/// The menu line of one profile: indented name, then its kind in
/// brackets.
pub open spec fn spec_menu_label(p: ProfileV) -> Seq<char> {
    "   "@ + p.name + " ["@ + kind_tag(p.kind) + "]"@
}

/// Executable form of [`spec_menu_label`].
pub fn menu_label(p: &Profile) -> (r: String)
    ensures
        r@ == spec_menu_label(p@),
{
    let mut s = String::from_str("   ");
    s.append(p.name.as_str());
    s.append(" [");
    match p.kind {
        ProfileKind::Standard => s.append("Standard"),
        ProfileKind::Sso => s.append("SSO"),
        ProfileKind::Federated => s.append("Okta"),
    }
    s.append("]");
    proof {
        assert(s@ =~= spec_menu_label(p@));
    }
    s
}

/// The menu lines of all loaded profiles, in order.
pub fn menu_labels(profiles: &Vec<Profile>) -> (r: Vec<String>)
    ensures
        r.deep_view().len() == profiles.deep_view().len(),
        forall|i: int|
            0 <= i < profiles.deep_view().len() ==> r.deep_view()[i] == spec_menu_label(
                profiles.deep_view()[i],
            ),
{
    let ghost psv = profiles.deep_view();
    let mut out: Vec<String> = Vec::new();
    let mut i: usize = 0;
    proof {
        assert(psv.len() == profiles@.len());
    }
    while i < profiles.len()
        invariant
            0 <= i <= profiles@.len(),
            psv == profiles.deep_view(),
            psv.len() == profiles@.len(),
            out.deep_view().len() == i,
            forall|k: int| 0 <= k < i ==> out.deep_view()[k] == spec_menu_label(psv[k]),
        decreases profiles.len() - i,
    {
        proof {
            assert(profiles.deep_view()[i as int] == profiles@[i as int].deep_view());
        }
        let l = menu_label(&profiles[i]);
        let ghost lv = l@;
        let ghost prev = out.deep_view();
        out.push(l);
        proof {
            assert(out.deep_view() =~= prev.push(lv));
        }
        i = i + 1;
    }
    out
}

/// The profile name a menu choice refers to: the trimmed text before the
/// bracketed kind tag.
pub open spec fn spec_selection_name(choice: Seq<char>) -> Seq<char> {
    let t = trimmed(choice);
    let i = find_ch(t, '[');
    if i < 0 {
        trimmed(t)
    } else {
        trimmed(t.subrange(0, i))
    }
}

/// Executable form of [`spec_selection_name`].
pub fn selection_profile_name(choice: &str) -> (r: String)
    ensures
        r@ == spec_selection_name(choice@),
{
    let t = trim(choice);
    match find_char(t, '[') {
        Some(i) => {
            proof {
                crate::text::lemma_find_ch(t@, '[');
            }
            String::from_str(trim(t.substring_char(0, i)))
        },
        None => String::from_str(trim(t)),
    }
}

/// Resolve a requested profile name against the loaded profiles: the
/// index of the first profile of that name, or a profile-not-found error
/// naming the request.
pub fn resolve_profile(profiles: &Vec<Profile>, name: &str) -> (r: Result<usize, ConfigError>)
    ensures
        r is Ok ==> {
            let i = r->Ok_0 as int;
            &&& 0 <= i < profiles.deep_view().len()
            &&& profiles.deep_view()[i].name == name@
            &&& forall|k: int| 0 <= k < i ==> profiles.deep_view()[k].name != name@
        },
        r is Err ==> (forall|k: int|
            0 <= k < profiles.deep_view().len() ==> profiles.deep_view()[k].name != name@)
            && r->Err_0@ == ErrV::ProfileNotFound(name@),
{
    let ghost psv = profiles.deep_view();
    let mut i: usize = 0;
    proof {
        assert(psv.len() == profiles@.len());
    }
    while i < profiles.len()
        invariant
            0 <= i <= profiles@.len(),
            psv == profiles.deep_view(),
            psv.len() == profiles@.len(),
            forall|k: int| 0 <= k < i ==> psv[k].name != name@,
        decreases profiles.len() - i,
    {
        proof {
            assert(profiles.deep_view()[i as int] == profiles@[i as int].deep_view());
        }
        if str_eq(profiles[i].name.as_str(), name) {
            return Ok(i);
        }
        i = i + 1;
    }
    Err(ConfigError::ProfileNotFound(String::from_str(name)))
}

} // verus!
