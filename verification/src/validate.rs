//! The format rules the prompter holds new-profile fields to.

use vstd::prelude::*;
use vstd::string::*;

use crate::profile::{clean_value, valid_name_char, valid_profile_name};
use crate::text::{is_space_char, lemma_trimmed_clean};

verus! {

/// An ASCII letter or digit.
pub open spec fn alnum_char(c: char) -> bool {
    (97 <= c as u32 && c as u32 <= 122) || (65 <= c as u32 && c as u32 <= 90) || (48 <= c as u32
        && c as u32 <= 57)
}

/// An access key id: non-empty, letters and digits only.
pub open spec fn valid_access_key(s: Seq<char>) -> bool {
    s.len() > 0 && forall|i: int| 0 <= i < s.len() ==> alnum_char(s[i])
}

/// A secret access key: non-empty, base64 alphabet.
pub open spec fn secret_char(c: char) -> bool {
    alnum_char(c) || c == '+' || c == '/' || c == '='
}

pub open spec fn valid_secret_key(s: Seq<char>) -> bool {
    s.len() > 0 && forall|i: int| 0 <= i < s.len() ==> secret_char(s[i])
}

/// A region name: non-empty, letters, digits and hyphens only.
pub open spec fn region_char(c: char) -> bool {
    alnum_char(c) || c == '-'
}

pub open spec fn valid_region(s: Seq<char>) -> bool {
    s.len() > 0 && forall|i: int| 0 <= i < s.len() ==> region_char(s[i])
}

/// Executable form of [`alnum_char`].
pub fn is_alnum_char(c: char) -> (r: bool)
    ensures
        r == alnum_char(c),
{
    let u = c as u32;
    (97 <= u && u <= 122) || (65 <= u && u <= 90) || (48 <= u && u <= 57)
}

/// Executable form of [`valid_profile_name`].
pub fn is_valid_profile_name(s: &str) -> (r: bool)
    ensures
        r == valid_profile_name(s@),
{
    let n = s.unicode_len();
    if n == 0 {
        return false;
    }
    let mut i: usize = 0;
    while i < n
        invariant
            0 <= i <= n,
            n == s@.len(),
            forall|k: int| 0 <= k < i ==> valid_name_char(s@[k]),
        decreases n - i,
    {
        let c = s.get_char(i);
        if !(is_alnum_char(c) || c == '-' || c == '_') {
            return false;
        }
        i = i + 1;
    }
    true
}

/// Executable form of [`valid_access_key`].
pub fn is_valid_access_key(s: &str) -> (r: bool)
    ensures
        r == valid_access_key(s@),
{
    let n = s.unicode_len();
    if n == 0 {
        return false;
    }
    let mut i: usize = 0;
    while i < n
        invariant
            0 <= i <= n,
            n == s@.len(),
            forall|k: int| 0 <= k < i ==> alnum_char(s@[k]),
        decreases n - i,
    {
        if !is_alnum_char(s.get_char(i)) {
            return false;
        }
        i = i + 1;
    }
    true
}

/// Executable form of [`valid_secret_key`].
pub fn is_valid_secret_key(s: &str) -> (r: bool)
    ensures
        r == valid_secret_key(s@),
{
    let n = s.unicode_len();
    if n == 0 {
        return false;
    }
    let mut i: usize = 0;
    while i < n
        invariant
            0 <= i <= n,
            n == s@.len(),
            forall|k: int| 0 <= k < i ==> secret_char(s@[k]),
        decreases n - i,
    {
        let c = s.get_char(i);
        if !(is_alnum_char(c) || c == '+' || c == '/' || c == '=') {
            return false;
        }
        i = i + 1;
    }
    true
}

/// Executable form of [`valid_region`].
pub fn is_valid_region(s: &str) -> (r: bool)
    ensures
        r == valid_region(s@),
{
    let n = s.unicode_len();
    if n == 0 {
        return false;
    }
    let mut i: usize = 0;
    while i < n
        invariant
            0 <= i <= n,
            n == s@.len(),
            forall|k: int| 0 <= k < i ==> region_char(s@[k]),
        decreases n - i,
    {
        let c = s.get_char(i);
        if !(is_alnum_char(c) || c == '-') {
            return false;
        }
        i = i + 1;
    }
    true
}

/// No allowed character is blank or a newline.
pub proof fn lemma_no_space_clean(s: Seq<char>)
    requires
        forall|i: int| 0 <= i < s.len() ==> !is_space_char(s[i]) && s[i] != '\n',
    ensures
        clean_value(s),
{
    lemma_trimmed_clean(s);
}

/// A valid profile name is a clean store value.
pub proof fn lemma_valid_name_clean(s: Seq<char>)
    requires
        valid_profile_name(s),
    ensures
        clean_value(s),
{
    assert forall|i: int| 0 <= i < s.len() implies !is_space_char(s[i]) && s[i] != '\n' by {
        assert(valid_name_char(s[i]));
    }
    lemma_no_space_clean(s);
}

/// A valid access key is a clean store value.
pub proof fn lemma_valid_access_key_clean(s: Seq<char>)
    requires
        valid_access_key(s),
    ensures
        clean_value(s),
{
    assert forall|i: int| 0 <= i < s.len() implies !is_space_char(s[i]) && s[i] != '\n' by {
        assert(alnum_char(s[i]));
    }
    lemma_no_space_clean(s);
}

/// A valid secret key is a clean store value.
pub proof fn lemma_valid_secret_key_clean(s: Seq<char>)
    requires
        valid_secret_key(s),
    ensures
        clean_value(s),
{
    assert forall|i: int| 0 <= i < s.len() implies !is_space_char(s[i]) && s[i] != '\n' by {
        assert(secret_char(s[i]));
    }
    lemma_no_space_clean(s);
}

/// A valid region is a clean store value.
pub proof fn lemma_valid_region_clean(s: Seq<char>)
    requires
        valid_region(s),
    ensures
        clean_value(s),
{
    assert forall|i: int| 0 <= i < s.len() implies !is_space_char(s[i]) && s[i] != '\n' by {
        assert(region_char(s[i]));
    }
    lemma_no_space_clean(s);
}

} // verus!
