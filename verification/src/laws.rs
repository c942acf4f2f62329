//! Proofs that the store's writer and parser agree: a section rendered for
//! a well-formed profile reads back as exactly that profile, also when it
//! is appended to an existing well-formed store, and distinct names can
//! never collide on a section header.

use vstd::prelude::*;

use crate::ini::{
    classify_line, entry_lookup, has_entry_key, parse_rest, parse_sections, sections_of_text,
    LineShape, SectionV,
};
use crate::profile::{
    clean_value, profile_name_of_section, profile_of_section, section_kind, valid_name_char,
    valid_profile_name, wf_profile, ProfileV,
};
use crate::store::{
    appended_credentials, appended_profile, cred_header_of, entries_from, field_at, field_count,
    header_of, key_at, kv_line, opt_entry, opt_kv, profiles_of_sections, profiles_of_text,
    render_credentials, render_profile, render_fields_from, lemma_render_profile_fields,
    section_name_of, section_of, sections_have_name, with_separator,
};
use crate::validate::{
    lemma_valid_access_key_clean, lemma_valid_secret_key_clean, valid_access_key,
    valid_secret_key,
};
use crate::text::{
    is_space_char, lemma_find_ch_at, lemma_line_split_acc_concat,
    lemma_line_split_acc_final_newline, lemma_line_split_line, lemma_trim_back_subrange,
    lemma_trim_front_subrange, lemma_trimmed_clean, line_split, trim_back, trim_front, trimmed,
};

verus! {

/// A key the store writes: non-empty, free of `=`, newlines and space
/// padding, and not opening a bracket.
pub open spec fn key_ok(k: Seq<char>) -> bool {
    &&& k.len() > 0
    &&& k[0] != '['
    &&& !is_space_char(k[0])
    &&& !is_space_char(k[k.len() - 1])
    &&& forall|i: int| 0 <= i < k.len() ==> k[i] != '=' && k[i] != '\n'
}

/// Every key the store writes satisfies [`key_ok`].
proof fn lemma_keys_ok()
    ensures
        forall|i: int| 0 <= i < field_count() ==> #[trigger] key_ok(key_at(i)),
        key_ok("aws_access_key_id"@),
        key_ok("aws_secret_access_key"@),
{
    reveal_strlit("sso_start_url");
    reveal_strlit("sso_region");
    reveal_strlit("sso_account_id");
    reveal_strlit("sso_role_name");
    reveal_strlit("okta_org_domain");
    reveal_strlit("okta_oidc_client_id");
    reveal_strlit("okta_aws_account_federation_app_id");
    reveal_strlit("okta_aws_iam_role");
    reveal_strlit("okta_aws_iam_idp");
    reveal_strlit("region");
    reveal_strlit("aws_access_key_id");
    reveal_strlit("aws_secret_access_key");
    assert(key_ok(key_at(0)));
    assert(key_ok(key_at(1)));
    assert(key_ok(key_at(2)));
    assert(key_ok(key_at(3)));
    assert(key_ok(key_at(4)));
    assert(key_ok(key_at(5)));
    assert(key_ok(key_at(6)));
    assert(key_ok(key_at(7)));
    assert(key_ok(key_at(8)));
    assert(key_ok(key_at(9)));
    assert forall|i: int| 0 <= i < field_count() implies #[trigger] key_ok(key_at(i)) by {
        assert(key_at(i) == key_at(0) || key_at(i) == key_at(1) || key_at(i) == key_at(2)
            || key_at(i) == key_at(3) || key_at(i) == key_at(4) || key_at(i) == key_at(5)
            || key_at(i) == key_at(6) || key_at(i) == key_at(7) || key_at(i) == key_at(8)
            || key_at(i) == key_at(9));
    }
}

/// The two store keys of equal length differ, so all ten are distinct.
proof fn lemma_key_at_injective(i: int, j: int)
    requires
        0 <= i < field_count(),
        0 <= j < field_count(),
        key_at(i) == key_at(j),
    ensures
        i == j,
{
    reveal_strlit("sso_start_url");
    reveal_strlit("sso_region");
    reveal_strlit("sso_account_id");
    reveal_strlit("sso_role_name");
    reveal_strlit("okta_org_domain");
    reveal_strlit("okta_oidc_client_id");
    reveal_strlit("okta_aws_account_federation_app_id");
    reveal_strlit("okta_aws_iam_role");
    reveal_strlit("okta_aws_iam_idp");
    reveal_strlit("region");
    if i != j {
        assert(key_at(0).len() == 13);
        assert(key_at(1).len() == 10);
        assert(key_at(2).len() == 14);
        assert(key_at(3).len() == 13);
        assert(key_at(4).len() == 15);
        assert(key_at(5).len() == 19);
        assert(key_at(6).len() == 34);
        assert(key_at(7).len() == 17);
        assert(key_at(8).len() == 16);
        assert(key_at(9).len() == 6);
        assert(key_at(i).len() == key_at(j).len());
        assert((i == 0 && j == 3) || (i == 3 && j == 0));
        assert(key_at(0)[4] == 't');
        assert(key_at(3)[4] == 'o');
        assert(false);
    }
}

/// The empty line is blank.
proof fn lemma_classify_empty()
    ensures
        classify_line(Seq::<char>::empty()) == LineShape::Blank,
{
    assert(trim_front(Seq::<char>::empty()) == Seq::<char>::empty());
    assert(trimmed(Seq::<char>::empty()) == Seq::<char>::empty());
}

/// A rendered `key = value` line, without its newline, reads back as
/// exactly that pair, and holds no newline itself.
proof fn lemma_classify_kv(k: Seq<char>, v: Seq<char>)
    requires
        key_ok(k),
        clean_value(v),
    ensures
        classify_line(k + " = "@ + v) == LineShape::Pair(k, v),
        forall|i: int| 0 <= i < (k + " = "@ + v).len() ==> (k + " = "@ + v)[i] != '\n',
{
    reveal_strlit(" = ");
    reveal_strlit(" =");
    let l = k + " = "@ + v;
    let kl = k.len() as int;
    assert(l.len() == kl + 3 + v.len());
    assert(forall|i: int| 0 <= i < kl ==> l[i] == k[i]);
    assert(l[kl] == ' ');
    assert(l[kl + 1] == '=');
    assert(l[kl + 2] == ' ');
    assert(forall|i: int| kl + 3 <= i < l.len() ==> l[i] == v[i - kl - 3]);
    if v.len() > 0 {
        lemma_trimmed_ends(v);
    }
    // the line never holds a newline
    assert(forall|i: int| 0 <= i < l.len() ==> l[i] != '\n');
    if v.len() == 0 {
        // trailing blank is trimmed away, leaving `key =`
        let t = k + " ="@;
        lemma_trim_front_subrange(l, 0);
        assert(l.subrange(0, l.len() as int) =~= l);
        assert(trim_front(l) == l);
        lemma_trim_back_subrange(l, kl + 2);
        assert(trimmed(l) == l.subrange(0, kl + 2));
        assert(l.subrange(0, kl + 2) =~= t);
        assert(t.len() == kl + 2);
        assert(t[0] == k[0]);
        assert(t[0] != '[');
        assert(t[t.len() - 1] == '=');
        assert(t[t.len() - 1] != ']');
        assert(forall|i: int| 0 <= i < kl ==> t[i] == k[i] && t[i] != '=');
        assert(t[kl] == ' ');
        lemma_find_ch_at(t, '=', kl + 1);
        assert(t.subrange(0, kl + 1) =~= k + " "@) by {
            reveal_strlit(" ");
        }
        lemma_trimmed_key_space(k);
        assert(t.subrange(kl + 2, t.len() as int) =~= Seq::<char>::empty());
        assert(trimmed(Seq::<char>::empty()) == Seq::<char>::empty());
        assert(v =~= Seq::<char>::empty());
        assert(classify_line(l) == LineShape::Pair(k, v));
    } else {
        assert(!is_space_char(l[0]));
        assert(!is_space_char(l[l.len() - 1]));
        lemma_trimmed_clean(l);
        assert(trimmed(l) == l);
        assert(l[0] == k[0]);
        assert(l[0] != '[');
        assert(forall|i: int| 0 <= i < kl ==> l[i] != '=');
        lemma_find_ch_at(l, '=', kl + 1);
        assert(l.subrange(0, kl + 1) =~= k + " "@) by {
            reveal_strlit(" ");
        }
        lemma_trimmed_key_space(k);
        let tail = l.subrange(kl + 2, l.len() as int);
        assert(tail.len() == v.len() + 1);
        assert(tail[0] == ' ');
        assert(forall|i: int| 1 <= i < tail.len() ==> tail[i] == v[i - 1]);
        lemma_trim_front_subrange(tail, 1);
        assert(tail.subrange(1, tail.len() as int) =~= v);
        assert(trim_front(tail) == v);
        assert(trim_front(v) == v);
        assert(trim_back(v) == v);
        lemma_trim_front_keeps_back(tail, 1);
        assert(trimmed(tail) == v);
        assert(classify_line(l) == LineShape::Pair(k, v));
    }
}

/// A non-empty trimmed sequence starts and ends with non-space characters.
proof fn lemma_trimmed_ends(s: Seq<char>)
    requires
        trimmed(s) == s,
        s.len() > 0,
    ensures
        !is_space_char(s[0]),
        !is_space_char(s[s.len() - 1]),
{
    lemma_trim_front_shrinks(s);
    lemma_trim_back_shrinks(trim_front(s));
    assert(trim_front(s).len() == s.len());
    assert(trim_front(s) == s);
}

/// Trimming the front never lengthens a sequence, removes a leading space
/// for sure, and changes nothing else.
proof fn lemma_trim_front_shrinks(s: Seq<char>)
    ensures
        trim_front(s).len() <= s.len(),
        s.len() > 0 && is_space_char(s[0]) ==> trim_front(s).len() < s.len(),
        trim_front(s).len() == s.len() ==> trim_front(s) == s,
    decreases s.len(),
{
    if s.len() > 0 && is_space_char(s[0]) {
        lemma_trim_front_shrinks(s.drop_first());
    }
}

/// Trimming the back never lengthens a sequence, removes a trailing space
/// for sure, and changes nothing else.
proof fn lemma_trim_back_shrinks(s: Seq<char>)
    ensures
        trim_back(s).len() <= s.len(),
        s.len() > 0 && is_space_char(s[s.len() - 1]) ==> trim_back(s).len() < s.len(),
        trim_back(s).len() == s.len() ==> trim_back(s) == s,
    decreases s.len(),
{
    if s.len() > 0 && is_space_char(s[s.len() - 1]) {
        lemma_trim_back_shrinks(s.drop_last());
    }
}

/// `key ` trims back to the key itself.
proof fn lemma_trimmed_key_space(k: Seq<char>)
    requires
        key_ok(k),
    ensures
        trimmed(k + " "@) == k,
{
    reveal_strlit(" ");
    let t = k + " "@;
    lemma_trim_front_subrange(t, 0);
    assert(t.subrange(0, t.len() as int) =~= t);
    lemma_trim_back_subrange(t, k.len() as int);
    assert(t.subrange(0, k.len() as int) =~= k);
}

/// When the front is already clean after position `i`, trimming the whole
/// equals trimming the front first.
proof fn lemma_trim_front_keeps_back(s: Seq<char>, i: int)
    requires
        0 <= i <= s.len(),
        trim_front(s) == s.subrange(i, s.len() as int),
        trim_back(s.subrange(i, s.len() as int)) == s.subrange(i, s.len() as int),
    ensures
        trimmed(s) == s.subrange(i, s.len() as int),
{
}


/// A valid profile name holds no bracket, newline or space character.
proof fn lemma_valid_name_chars(name: Seq<char>)
    requires
        valid_profile_name(name),
    ensures
        forall|i: int|
            0 <= i < name.len() ==> !is_space_char(name[i]) && name[i] != '\n' && name[i] != '['
                && name[i] != ']',
{
    assert forall|i: int|
        0 <= i < name.len() implies !is_space_char(name[i]) && name[i] != '\n' && name[i] != '['
        && name[i] != ']' by {
        assert(valid_name_char(name[i]));
    }
}

/// The header line of a valid name reads back as its section name, and
/// holds no newline.
proof fn lemma_classify_header(name: Seq<char>)
    requires
        valid_profile_name(name),
    ensures
        classify_line(header_of(name)) == LineShape::Header(section_name_of(name)),
        forall|i: int| 0 <= i < header_of(name).len() ==> header_of(name)[i] != '\n',
{
    lemma_valid_name_chars(name);
    let h = header_of(name);
    if name == "default"@ {
        reveal_strlit("[default]");
        reveal_strlit("default");
        assert(h.len() == 9);
        assert(!is_space_char(h[0]));
        assert(!is_space_char(h[8]));
        lemma_trimmed_clean(h);
        assert(h[0] == '[');
        assert(h[8] == ']');
        assert(h.subrange(1, 8) =~= "default"@);
        assert(forall|i: int| 0 <= i < h.len() ==> h[i] != '\n');
    } else {
        reveal_strlit("[profile ");
        reveal_strlit("profile ");
        reveal_strlit("]");
        let hl = h.len() as int;
        assert(hl == 10 + name.len());
        assert(forall|i: int| 0 <= i < 9 ==> h[i] == "[profile "@[i]);
        assert(forall|i: int| 9 <= i < hl - 1 ==> h[i] == name[i - 9]);
        assert(h[hl - 1] == ']');
        assert(h[0] == '[');
        assert(!is_space_char(h[0]));
        assert(!is_space_char(h[hl - 1]));
        lemma_trimmed_clean(h);
        assert(h.subrange(1, hl - 1) =~= "profile "@ + name);
        assert(classify_line(h) == LineShape::Header("profile "@ + name));
        assert(forall|i: int| 0 <= i < hl ==> h[i] != '\n');
    }
}

/// A valid name survives the section-name mapping in both directions.
proof fn lemma_section_name_roundtrip(name: Seq<char>)
    requires
        valid_profile_name(name),
    ensures
        profile_name_of_section(section_name_of(name)) == Some(name),
{
    if name == "default"@ {
    } else {
        reveal_strlit("profile ");
        reveal_strlit("default");
        let sn = "profile "@ + name;
        assert(sn.len() >= 9);
        assert(sn != "default"@);
        assert(sn.take(8) =~= "profile "@);
        assert(sn.skip(8) =~= name);
    }
}


/// Every stored field value of a well-formed profile is clean.
proof fn lemma_wf_field_clean(p: ProfileV, i: int)
    requires
        wf_profile(p),
        0 <= i < field_count(),
        field_at(p, i) is Some,
    ensures
        clean_value(field_at(p, i)->Some_0),
{
}

/// The lines rendered for the fields from `i` on, read inside an open
/// section, close it with exactly those fields' entries appended.
proof fn lemma_parse_rendered_fields(p: ProfileV, i: int, cur: SectionV)
    requires
        wf_profile(p),
        0 <= i <= field_count(),
    ensures
        parse_rest(line_split(render_fields_from(p, i)), cur) == Some(
            seq![SectionV { name: cur.name, entries: cur.entries + entries_from(p, i) }],
        ),
    decreases field_count() - i,
{
    lemma_keys_ok();
    if i == field_count() {
        assert(render_fields_from(p, i) == Seq::<char>::empty());
        assert(line_split(Seq::<char>::empty()) == seq![Seq::<char>::empty()]);
        lemma_classify_empty();
        let ls = seq![Seq::<char>::empty()];
        assert(ls[0] == Seq::<char>::empty());
        assert(ls.drop_first() =~= Seq::<Seq<char>>::empty());
        assert(parse_rest(ls, cur) == parse_rest(Seq::<Seq<char>>::empty(), cur));
        assert(parse_rest(Seq::<Seq<char>>::empty(), cur) == Some(seq![cur]));
        assert(entries_from(p, i) == Seq::<(Seq<char>, Seq<char>)>::empty());
        assert(SectionV { name: cur.name, entries: cur.entries + entries_from(p, i) } =~= cur);
    } else {
        match field_at(p, i) {
            None => {
                assert(opt_kv(key_at(i), field_at(p, i)) == Seq::<char>::empty());
                assert(render_fields_from(p, i) =~= render_fields_from(p, i + 1));
                lemma_parse_rendered_fields(p, i + 1, cur);
                assert(opt_entry(key_at(i), field_at(p, i)) == Seq::<(
                    Seq<char>,
                    Seq<char>,
                )>::empty());
                assert(entries_from(p, i) =~= entries_from(p, i + 1));
            },
            Some(v) => {
                lemma_wf_field_clean(p, i);
                let k = key_at(i);
                assert(key_ok(k));
                let lcontent = k + " = "@ + v;
                lemma_classify_kv(k, v);
                let rest = render_fields_from(p, i + 1);
                reveal_strlit("\n");
                assert("\n"@ =~= seq!['\n']);
                assert(render_fields_from(p, i) == kv_line(k, v) + rest);
                assert(kv_line(k, v) + rest =~= lcontent + seq!['\n'] + rest);
                lemma_line_split_line(lcontent, rest);
                assert(line_split(render_fields_from(p, i)) == seq![lcontent] + line_split(rest));
                let ls = seq![lcontent] + line_split(rest);
                assert(ls.len() > 0);
                assert(ls[0] == lcontent);
                assert(ls.drop_first() =~= line_split(rest));
                let cur2 = SectionV { name: cur.name, entries: cur.entries.push((k, v)) };
                lemma_parse_rendered_fields(p, i + 1, cur2);
                assert(parse_rest(ls, cur) == parse_rest(line_split(rest), cur2));
                assert(cur2.entries + entries_from(p, i + 1) =~= cur.entries + entries_from(p, i))
                    by {
                    assert(entries_from(p, i) == opt_entry(k, field_at(p, i)) + entries_from(
                        p,
                        i + 1,
                    ));
                    assert(opt_entry(k, field_at(p, i)) == seq![(k, v)]);
                }
                assert(SectionV { name: cur2.name, entries: cur2.entries + entries_from(p, i + 1) }
                    =~= SectionV { name: cur.name, entries: cur.entries + entries_from(p, i) });
            },
        }
    }
}

/// The rendered section of a well-formed profile parses as exactly that
/// section.
proof fn lemma_parse_render_profile(p: ProfileV)
    requires
        wf_profile(p),
    ensures
        parse_sections(line_split(render_profile(p))) == Some(seq![section_of(p)]),
        line_split(render_profile(p)).len() > 0,
        classify_line(line_split(render_profile(p))[0]) is Header,
{
    lemma_render_profile_fields(p);
    lemma_classify_header(p.name);
    let hdr = header_of(p.name);
    let rest = render_fields_from(p, 0);
    reveal_strlit("\n");
    assert("\n"@ =~= seq!['\n']);
    assert(render_profile(p) == hdr + "\n"@ + rest);
    assert(hdr + "\n"@ + rest =~= hdr + seq!['\n'] + rest);
    lemma_line_split_line(hdr, rest);
    assert(line_split(render_profile(p)) == seq![hdr] + line_split(rest));
    let ls = seq![hdr] + line_split(rest);
    assert(ls.len() > 0);
    assert(ls[0] == hdr);
    assert(ls.drop_first() =~= line_split(rest));
    let sec0 = SectionV { name: section_name_of(p.name), entries: Seq::empty() };
    lemma_parse_rendered_fields(p, 0, sec0);
    assert(parse_sections(ls) == parse_rest(line_split(rest), sec0));
    assert(SectionV { name: sec0.name, entries: sec0.entries + entries_from(p, 0) } =~= section_of(
        p,
    ));
}

/// Looking a store key up in the entries from `i` on finds exactly the
/// matching field.
proof fn lemma_entries_from_lookup(p: ProfileV, i: int, j: int)
    requires
        0 <= i <= field_count(),
        0 <= j < field_count(),
    ensures
        entry_lookup(entries_from(p, i), key_at(j)) == if i <= j {
            field_at(p, j)
        } else {
            None::<Seq<char>>
        },
    decreases field_count() - i,
{
    if i == field_count() {
    } else {
        lemma_entries_from_lookup(p, i + 1, j);
        crate::ini::lemma_entry_lookup_concat(
            opt_entry(key_at(i), field_at(p, i)),
            entries_from(p, i + 1),
            key_at(j),
        );
        if key_at(i) == key_at(j) {
            lemma_key_at_injective(i, j);
        }
        match field_at(p, i) {
            Some(v) => {
                let e = seq![(key_at(i), v)];
                assert(e.last() == (key_at(i), v));
                assert(e.drop_last() =~= Seq::<(Seq<char>, Seq<char>)>::empty());
                assert(entry_lookup(Seq::<(Seq<char>, Seq<char>)>::empty(), key_at(j))
                    is None);
                assert(entry_lookup(e, key_at(j)) == if key_at(i) == key_at(j) {
                    Some(v)
                } else {
                    None::<Seq<char>>
                });
            },
            None => {},
        }
    }
}

/// The entries of a well-formed profile classify back to its kind.
proof fn lemma_entries_from_kind(p: ProfileV)
    requires
        wf_profile(p),
    ensures
        section_kind(entries_from(p, 0)) == p.kind,
{
    lemma_entries_from_lookup(p, 0, 4);
    lemma_entries_from_lookup(p, 0, 0);
    assert(key_at(4) == "okta_org_domain"@);
    assert(key_at(0) == "sso_start_url"@);
    assert(has_entry_key(entries_from(p, 0), "okta_org_domain"@) == (p.okta_org_domain is Some));
    assert(has_entry_key(entries_from(p, 0), "sso_start_url"@) == (p.sso_start_url is Some));
}

/// A well-formed profile's own section reads back as that profile.
proof fn lemma_profile_of_section_of(p: ProfileV)
    requires
        wf_profile(p),
    ensures
        profile_of_section(section_of(p)) == Some(p),
{
    lemma_section_name_roundtrip(p.name);
    lemma_entries_from_kind(p);
    lemma_entries_from_lookup(p, 0, 0);
    lemma_entries_from_lookup(p, 0, 1);
    lemma_entries_from_lookup(p, 0, 2);
    lemma_entries_from_lookup(p, 0, 3);
    lemma_entries_from_lookup(p, 0, 4);
    lemma_entries_from_lookup(p, 0, 5);
    lemma_entries_from_lookup(p, 0, 6);
    lemma_entries_from_lookup(p, 0, 7);
    lemma_entries_from_lookup(p, 0, 8);
    lemma_entries_from_lookup(p, 0, 9);
    assert(key_at(0) == "sso_start_url"@);
    assert(key_at(1) == "sso_region"@);
    assert(key_at(2) == "sso_account_id"@);
    assert(key_at(3) == "sso_role_name"@);
    assert(key_at(4) == "okta_org_domain"@);
    assert(key_at(5) == "okta_oidc_client_id"@);
    assert(key_at(6) == "okta_aws_account_federation_app_id"@);
    assert(key_at(7) == "okta_aws_iam_role"@);
    assert(key_at(8) == "okta_aws_iam_idp"@);
    assert(key_at(9) == "region"@);
    assert(profile_of_section(section_of(p))->Some_0 =~= p);
}

/// Round trip of one profile: the rendered section of a well-formed
/// profile loads back as exactly that profile, every set field with its
/// value and every unset field absent.
pub proof fn lemma_profile_round_trip(p: ProfileV)
    requires
        wf_profile(p),
    ensures
        profiles_of_text(render_profile(p)) == Some(seq![p]),
{
    lemma_parse_render_profile(p);
    lemma_profile_of_section_of(p);
    let ss = seq![section_of(p)];
    assert(ss.drop_first() =~= Seq::<SectionV>::empty());
    assert(profiles_of_sections(Seq::<SectionV>::empty()) == Seq::<ProfileV>::empty());
    assert(ss[0] == section_of(p));
    assert(profiles_of_sections(ss) =~= seq![p]);
}


/// Reading more lines after a finished prefix, when they open with a
/// header, yields the prefix's sections followed by the rest's.
proof fn lemma_parse_rest_concat(
    ls1: Seq<Seq<char>>,
    ls2: Seq<Seq<char>>,
    cur: SectionV,
    ss2: Seq<SectionV>,
)
    requires
        parse_rest(ls1, cur) is Some,
        ls2.len() > 0,
        classify_line(ls2[0]) is Header,
        parse_sections(ls2) == Some(ss2),
    ensures
        parse_rest(ls1 + ls2, cur) == Some(parse_rest(ls1, cur)->Some_0 + ss2),
    decreases ls1.len(),
{
    if ls1.len() == 0 {
        assert(ls1 + ls2 =~= ls2);
        assert(parse_rest(ls2, cur) == Some(seq![cur] + ss2));
        assert(parse_rest(ls1, cur) == Some(seq![cur]));
    } else {
        let s = ls1 + ls2;
        assert(s.len() > 0);
        assert(s[0] == ls1[0]);
        assert(s.drop_first() =~= ls1.drop_first() + ls2);
        match classify_line(ls1[0]) {
            LineShape::Blank => {
                lemma_parse_rest_concat(ls1.drop_first(), ls2, cur, ss2);
            },
            LineShape::Header(n) => {
                let cur2 = SectionV { name: n, entries: Seq::empty() };
                lemma_parse_rest_concat(ls1.drop_first(), ls2, cur2, ss2);
                let r1 = parse_rest(ls1.drop_first(), cur2)->Some_0;
                assert(parse_rest(ls1, cur) == Some(seq![cur] + r1));
                assert(parse_rest(s, cur) == Some(seq![cur] + (r1 + ss2)));
                assert(seq![cur] + (r1 + ss2) =~= (seq![cur] + r1) + ss2);
            },
            LineShape::Pair(k, v) => {
                let cur2 = SectionV { name: cur.name, entries: cur.entries.push((k, v)) };
                lemma_parse_rest_concat(ls1.drop_first(), ls2, cur2, ss2);
            },
            LineShape::Bad => {
                assert(false);
            },
        }
    }
}

/// Sections of concatenated line lists, when the second opens with a
/// header: first the first's, then the second's.
proof fn lemma_parse_sections_concat(
    ls1: Seq<Seq<char>>,
    ls2: Seq<Seq<char>>,
    ss1: Seq<SectionV>,
    ss2: Seq<SectionV>,
)
    requires
        parse_sections(ls1) == Some(ss1),
        ls2.len() > 0,
        classify_line(ls2[0]) is Header,
        parse_sections(ls2) == Some(ss2),
    ensures
        parse_sections(ls1 + ls2) == Some(ss1 + ss2),
    decreases ls1.len(),
{
    if ls1.len() == 0 {
        assert(ls1 + ls2 =~= ls2);
        assert(ss1 =~= Seq::<SectionV>::empty());
        assert(ss1 + ss2 =~= ss2);
    } else {
        let s = ls1 + ls2;
        assert(s.len() > 0);
        assert(s[0] == ls1[0]);
        assert(s.drop_first() =~= ls1.drop_first() + ls2);
        match classify_line(ls1[0]) {
            LineShape::Blank => {
                lemma_parse_sections_concat(ls1.drop_first(), ls2, ss1, ss2);
            },
            LineShape::Header(n) => {
                let cur2 = SectionV { name: n, entries: Seq::empty() };
                lemma_parse_rest_concat(ls1.drop_first(), ls2, cur2, ss2);
            },
            LineShape::Pair(k, v) => {
                assert(false);
            },
            LineShape::Bad => {
                assert(false);
            },
        }
    }
}

/// A trailing empty line never changes what an open section reads.
proof fn lemma_parse_rest_blank_end(ls: Seq<Seq<char>>, cur: SectionV)
    ensures
        parse_rest(ls + seq![Seq::<char>::empty()], cur) == parse_rest(ls, cur),
    decreases ls.len(),
{
    lemma_classify_empty();
    let s = ls + seq![Seq::<char>::empty()];
    if ls.len() == 0 {
        assert(s[0] == Seq::<char>::empty());
        assert(s.drop_first() =~= Seq::<Seq<char>>::empty());
        assert(parse_rest(s, cur) == parse_rest(Seq::<Seq<char>>::empty(), cur));
    } else {
        assert(s[0] == ls[0]);
        assert(s.drop_first() =~= ls.drop_first() + seq![Seq::<char>::empty()]);
        match classify_line(ls[0]) {
            LineShape::Blank => {
                lemma_parse_rest_blank_end(ls.drop_first(), cur);
            },
            LineShape::Header(n) => {
                lemma_parse_rest_blank_end(
                    ls.drop_first(),
                    SectionV { name: n, entries: Seq::empty() },
                );
            },
            LineShape::Pair(k, v) => {
                lemma_parse_rest_blank_end(
                    ls.drop_first(),
                    SectionV { name: cur.name, entries: cur.entries.push((k, v)) },
                );
            },
            LineShape::Bad => {},
        }
    }
}

/// A trailing empty line never changes what a text's lines parse to.
proof fn lemma_parse_sections_blank_end(ls: Seq<Seq<char>>)
    ensures
        parse_sections(ls + seq![Seq::<char>::empty()]) == parse_sections(ls),
    decreases ls.len(),
{
    lemma_classify_empty();
    let s = ls + seq![Seq::<char>::empty()];
    if ls.len() == 0 {
        assert(s[0] == Seq::<char>::empty());
        assert(s.drop_first() =~= Seq::<Seq<char>>::empty());
        assert(parse_sections(s) == parse_sections(Seq::<Seq<char>>::empty()));
    } else {
        assert(s[0] == ls[0]);
        assert(s.drop_first() =~= ls.drop_first() + seq![Seq::<char>::empty()]);
        match classify_line(ls[0]) {
            LineShape::Blank => {
                lemma_parse_sections_blank_end(ls.drop_first());
            },
            LineShape::Header(n) => {
                lemma_parse_rest_blank_end(
                    ls.drop_first(),
                    SectionV { name: n, entries: Seq::empty() },
                );
            },
            LineShape::Pair(k, v) => {},
            LineShape::Bad => {},
        }
    }
}

/// Profiles of concatenated section lists: first list's, then second's.
proof fn lemma_profiles_of_sections_concat(a: Seq<SectionV>, b: Seq<SectionV>)
    ensures
        profiles_of_sections(a + b) == profiles_of_sections(a) + profiles_of_sections(b),
    decreases a.len(),
{
    if a.len() == 0 {
        assert(a + b =~= b);
        assert(profiles_of_sections(a) == Seq::<ProfileV>::empty());
        assert(Seq::<ProfileV>::empty() + profiles_of_sections(b) =~= profiles_of_sections(b));
    } else {
        let s = a + b;
        assert(s.len() > 0);
        assert(s[0] == a[0]);
        assert(s.drop_first() =~= a.drop_first() + b);
        lemma_profiles_of_sections_concat(a.drop_first(), b);
        match profile_of_section(a[0]) {
            Some(p) => {
                assert(seq![p] + (profiles_of_sections(a.drop_first()) + profiles_of_sections(b))
                    =~= (seq![p] + profiles_of_sections(a.drop_first())) + profiles_of_sections(
                    b,
                ));
            },
            None => {},
        }
    }
}

/// An empty text holds no profiles.
proof fn lemma_profiles_of_empty()
    ensures
        profiles_of_text(Seq::<char>::empty()) == Some(Seq::<ProfileV>::empty()),
{
    assert(line_split(Seq::<char>::empty()) == seq![Seq::<char>::empty()]);
    lemma_classify_empty();
    let ls = seq![Seq::<char>::empty()];
    assert(ls[0] == Seq::<char>::empty());
    assert(ls.drop_first() =~= Seq::<Seq<char>>::empty());
    assert(parse_sections(ls) == parse_sections(Seq::<Seq<char>>::empty()));
    assert(parse_sections(Seq::<Seq<char>>::empty()) == Some(Seq::<SectionV>::empty()));
}

/// Round trip of the whole store: appending a well-formed profile to any
/// well-formed store text loads back as the old profiles followed by
/// exactly the new one.
pub proof fn lemma_store_round_trip(existing: Seq<char>, p: ProfileV)
    requires
        wf_profile(p),
        profiles_of_text(existing) is Some,
    ensures
        profiles_of_text(appended_profile(existing, p)) == Some(
            profiles_of_text(existing)->Some_0 + seq![p],
        ),
{
    let ss_e = sections_of_text(existing)->Some_0;
    let rp = render_profile(p);
    lemma_parse_render_profile(p);
    lemma_profile_of_section_of(p);
    let secp = seq![section_of(p)];
    assert(secp.drop_first() =~= Seq::<SectionV>::empty());
    assert(profiles_of_sections(Seq::<SectionV>::empty()) == Seq::<ProfileV>::empty());
    assert(secp[0] == section_of(p));
    assert(profiles_of_sections(secp) =~= seq![p]);
    let we = with_separator(existing);
    if existing.len() == 0 {
        assert(existing =~= Seq::<char>::empty());
        lemma_profiles_of_empty();
        assert(we + rp =~= rp);
        lemma_profile_round_trip(p);
        assert(Seq::<ProfileV>::empty() + seq![p] =~= seq![p]);
    } else {
        reveal_strlit("\n");
        if existing[existing.len() - 1] == '\n' {
            assert(we == existing);
        } else {
            assert(we == existing + "\n"@);
            assert(we =~= existing + seq!['\n']);
            lemma_line_split_acc_final_newline(Seq::empty(), existing);
            assert(line_split(existing + seq!['\n']) == line_split(existing) + seq![
                Seq::<char>::empty(),
            ]);
            lemma_parse_sections_blank_end(line_split(existing));
            assert(parse_sections(line_split(we)) == Some(ss_e));
        }
        assert(we.len() > 0 && we[we.len() - 1] == '\n');
        lemma_line_split_acc_final_newline(Seq::empty(), we.drop_last());
        assert(we =~= we.drop_last() + seq!['\n']);
        assert(line_split(we) == line_split(we.drop_last()) + seq![Seq::<char>::empty()]);
        lemma_parse_sections_blank_end(line_split(we.drop_last()));
        assert(parse_sections(line_split(we.drop_last())) == Some(ss_e));
        lemma_line_split_acc_concat(Seq::empty(), we, rp);
        assert(line_split(we + rp) == line_split(we).drop_last() + line_split(rp));
        assert(line_split(we).drop_last() =~= line_split(we.drop_last()));
        lemma_parse_sections_concat(line_split(we.drop_last()), line_split(rp), ss_e, secp);
        assert(parse_sections(line_split(we + rp)) == Some(ss_e + secp));
        lemma_profiles_of_sections_concat(ss_e, secp);
        assert(profiles_of_sections(ss_e + secp) == profiles_of_sections(ss_e) + seq![p]);
    }
}

/// Exact-match uniqueness: two different valid profile names never share a
/// section header, also when one name is a prefix of the other.
pub proof fn lemma_header_exact_match(n1: Seq<char>, n2: Seq<char>)
    requires
        valid_profile_name(n1),
        valid_profile_name(n2),
        n1 != n2,
    ensures
        header_of(n1) != header_of(n2),
{
    reveal_strlit("[profile ");
    reveal_strlit("[default]");
    reveal_strlit("default");
    reveal_strlit("]");
    if n1 == "default"@ {
        assert(header_of(n1).len() == 9);
        assert(header_of(n2).len() == 10 + n2.len());
    } else if n2 == "default"@ {
        assert(header_of(n2).len() == 9);
        assert(header_of(n1).len() == 10 + n1.len());
    } else {
        if header_of(n1) == header_of(n2) {
            let h1 = header_of(n1);
            let h2 = header_of(n2);
            assert(h1.len() == 10 + n1.len());
            assert(h2.len() == 10 + n2.len());
            assert(n1.len() == n2.len());
            assert(n1 =~= n2) by {
                assert(forall|i: int|
                    0 <= i < n1.len() ==> n1[i] == h1[i + 9] && n2[i] == h2[i + 9]);
            }
            assert(false);
        }
    }
}


/// The bare header line of a credentials section reads back as the name,
/// and holds no newline.
proof fn lemma_classify_cred_header(name: Seq<char>)
    requires
        valid_profile_name(name),
    ensures
        classify_line(cred_header_of(name)) == LineShape::Header(name),
        forall|i: int| 0 <= i < cred_header_of(name).len() ==> cred_header_of(name)[i] != '\n',
{
    lemma_valid_name_chars(name);
    reveal_strlit("[");
    reveal_strlit("]");
    let h = cred_header_of(name);
    let hl = h.len() as int;
    assert(hl == 2 + name.len());
    assert(h[0] == '[');
    assert(forall|i: int| 1 <= i < hl - 1 ==> h[i] == name[i - 1]);
    assert(h[hl - 1] == ']');
    assert(!is_space_char(h[0]));
    assert(!is_space_char(h[hl - 1]));
    lemma_trimmed_clean(h);
    assert(h.subrange(1, hl - 1) =~= name);
    assert(forall|i: int| 0 <= i < hl ==> h[i] != '\n');
}

/// The section a credential pair renders to.
pub open spec fn cred_section_of(name: Seq<char>, akid: Seq<char>, secret: Seq<char>) -> SectionV {
    SectionV {
        name: name,
        entries: seq![("aws_access_key_id"@, akid), ("aws_secret_access_key"@, secret)],
    }
}

/// The rendered credentials section of a valid pair parses as exactly that
/// section.
proof fn lemma_parse_render_credentials(name: Seq<char>, akid: Seq<char>, secret: Seq<char>)
    requires
        valid_profile_name(name),
        valid_access_key(akid),
        valid_secret_key(secret),
    ensures
        parse_sections(line_split(render_credentials(name, akid, secret))) == Some(
            seq![cred_section_of(name, akid, secret)],
        ),
        line_split(render_credentials(name, akid, secret)).len() > 0,
        classify_line(line_split(render_credentials(name, akid, secret))[0]) is Header,
{
    lemma_keys_ok();
    lemma_classify_cred_header(name);
    lemma_valid_access_key_clean(akid);
    lemma_valid_secret_key_clean(secret);
    let hdr = cred_header_of(name);
    let k1 = "aws_access_key_id"@;
    let k2 = "aws_secret_access_key"@;
    let l1 = k1 + " = "@ + akid;
    let l2 = k2 + " = "@ + secret;
    lemma_classify_kv(k1, akid);
    lemma_classify_kv(k2, secret);
    reveal_strlit("\n");
    assert("\n"@ =~= seq!['\n']);
    let body = kv_line(k1, akid) + kv_line(k2, secret);
    let rc = render_credentials(name, akid, secret);
    assert(rc =~= hdr + seq!['\n'] + body);
    lemma_line_split_line(hdr, body);
    assert(line_split(rc) == seq![hdr] + line_split(body));
    assert(body =~= l1 + seq!['\n'] + kv_line(k2, secret));
    lemma_line_split_line(l1, kv_line(k2, secret));
    assert(line_split(body) == seq![l1] + line_split(kv_line(k2, secret)));
    assert(kv_line(k2, secret) =~= l2 + seq!['\n'] + Seq::<char>::empty());
    lemma_line_split_line(l2, Seq::empty());
    assert(line_split(Seq::<char>::empty()) == seq![Seq::<char>::empty()]);
    assert(line_split(kv_line(k2, secret)) == seq![l2] + seq![Seq::<char>::empty()]);
    let ls = line_split(rc);
    assert(ls =~= seq![hdr, l1, l2, Seq::<char>::empty()]);
    lemma_classify_empty();
    let sec0 = SectionV { name: name, entries: Seq::empty() };
    let sec1 = SectionV { name: name, entries: Seq::<(Seq<char>, Seq<char>)>::empty().push((k1, akid)) };
    let sec2 = SectionV { name: name, entries: sec1.entries.push((k2, secret)) };
    let tail3 = seq![l1, l2, Seq::<char>::empty()];
    let tail2 = seq![l2, Seq::<char>::empty()];
    let tail1 = seq![Seq::<char>::empty()];
    assert(ls[0] == hdr);
    assert(ls.drop_first() =~= tail3);
    assert(parse_sections(ls) == parse_rest(tail3, sec0));
    assert(tail3[0] == l1);
    assert(tail3.drop_first() =~= tail2);
    assert(parse_rest(tail3, sec0) == parse_rest(tail2, sec1));
    assert(tail2[0] == l2);
    assert(tail2.drop_first() =~= tail1);
    assert(parse_rest(tail2, sec1) == parse_rest(tail1, sec2));
    assert(tail1[0] == Seq::<char>::empty());
    assert(tail1.drop_first() =~= Seq::<Seq<char>>::empty());
    assert(parse_rest(tail1, sec2) == parse_rest(Seq::<Seq<char>>::empty(), sec2));
    assert(parse_rest(Seq::<Seq<char>>::empty(), sec2) == Some(seq![sec2]));
    assert(sec2 =~= cred_section_of(name, akid, secret));
}

/// Round trip of the credentials store: appending a valid credential pair
/// to any well-formed credentials text yields the old sections followed by
/// exactly the new one, so the standard login flow's check is owed to find
/// it.
pub proof fn lemma_credentials_round_trip(
    existing: Seq<char>,
    name: Seq<char>,
    akid: Seq<char>,
    secret: Seq<char>,
)
    requires
        valid_profile_name(name),
        valid_access_key(akid),
        valid_secret_key(secret),
        sections_of_text(existing) is Some,
    ensures
        sections_of_text(appended_credentials(existing, name, akid, secret)) == Some(
            sections_of_text(existing)->Some_0 + seq![cred_section_of(name, akid, secret)],
        ),
        sections_have_name(
            sections_of_text(appended_credentials(existing, name, akid, secret))->Some_0,
            name,
        ),
{
    let ss_e = sections_of_text(existing)->Some_0;
    let rc = render_credentials(name, akid, secret);
    lemma_parse_render_credentials(name, akid, secret);
    let secp = seq![cred_section_of(name, akid, secret)];
    let we = with_separator(existing);
    if existing.len() == 0 {
        assert(existing =~= Seq::<char>::empty());
        assert(line_split(Seq::<char>::empty()) == seq![Seq::<char>::empty()]);
        lemma_classify_empty();
        let ls = seq![Seq::<char>::empty()];
        assert(ls[0] == Seq::<char>::empty());
        assert(ls.drop_first() =~= Seq::<Seq<char>>::empty());
        assert(parse_sections(ls) == parse_sections(Seq::<Seq<char>>::empty()));
        assert(ss_e =~= Seq::<SectionV>::empty());
        assert(we + rc =~= rc);
        assert(ss_e + secp =~= secp);
    } else {
        reveal_strlit("\n");
        if existing[existing.len() - 1] == '\n' {
            assert(we == existing);
        } else {
            assert(we == existing + "\n"@);
            assert(we =~= existing + seq!['\n']);
            lemma_line_split_acc_final_newline(Seq::empty(), existing);
            assert(line_split(existing + seq!['\n']) == line_split(existing) + seq![
                Seq::<char>::empty(),
            ]);
            lemma_parse_sections_blank_end(line_split(existing));
            assert(parse_sections(line_split(we)) == Some(ss_e));
        }
        assert(we.len() > 0 && we[we.len() - 1] == '\n');
        lemma_line_split_acc_final_newline(Seq::empty(), we.drop_last());
        assert(we =~= we.drop_last() + seq!['\n']);
        assert(line_split(we) == line_split(we.drop_last()) + seq![Seq::<char>::empty()]);
        lemma_parse_sections_blank_end(line_split(we.drop_last()));
        assert(parse_sections(line_split(we.drop_last())) == Some(ss_e));
        lemma_line_split_acc_concat(Seq::empty(), we, rc);
        assert(line_split(we + rc) == line_split(we).drop_last() + line_split(rc));
        assert(line_split(we).drop_last() =~= line_split(we.drop_last()));
        lemma_parse_sections_concat(line_split(we.drop_last()), line_split(rc), ss_e, secp);
        assert(parse_sections(line_split(we + rc)) == Some(ss_e + secp));
    }
    let full = sections_of_text(appended_credentials(existing, name, akid, secret))->Some_0;
    assert(full[ss_e.len() as int].name == name);
}

} // verus!
