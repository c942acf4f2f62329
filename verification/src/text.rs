//! Character-sequence utilities shared by the store and the prompter rules:
//! trimming, searching, splitting into lines.

use vstd::prelude::*;
use vstd::string::*;

verus! {

/// Characters that count as blank padding around a token.
pub open spec fn is_space_char(c: char) -> bool {
    c == ' ' || c == '\t' || c == '\r'
}

/// `s` with leading space characters removed.
pub open spec fn trim_front(s: Seq<char>) -> Seq<char>
    decreases s.len(),
{
    if s.len() > 0 && is_space_char(s[0]) {
        trim_front(s.drop_first())
    } else {
        s
    }
}

/// `s` with trailing space characters removed.
pub open spec fn trim_back(s: Seq<char>) -> Seq<char>
    decreases s.len(),
{
    if s.len() > 0 && is_space_char(s[s.len() - 1]) {
        trim_back(s.drop_last())
    } else {
        s
    }
}

/// `s` with space characters removed from both ends.
pub open spec fn trimmed(s: Seq<char>) -> Seq<char> {
    trim_back(trim_front(s))
}

pub proof fn lemma_trim_front_subrange(s: Seq<char>, i: int)
    requires
        0 <= i <= s.len(),
        forall|k: int| 0 <= k < i ==> is_space_char(s[k]),
        i < s.len() ==> !is_space_char(s[i]),
    ensures
        trim_front(s) == s.subrange(i, s.len() as int),
    decreases i,
{
    if i == 0 {
        assert(s.subrange(0, s.len() as int) =~= s);
    } else {
        lemma_trim_front_subrange(s.drop_first(), i - 1);
        assert(s.drop_first().subrange(i - 1, s.drop_first().len() as int) =~= s.subrange(
            i,
            s.len() as int,
        ));
    }
}

pub proof fn lemma_trim_back_subrange(s: Seq<char>, j: int)
    requires
        0 <= j <= s.len(),
        forall|k: int| j <= k < s.len() ==> is_space_char(s[k]),
        j > 0 ==> !is_space_char(s[j - 1]),
    ensures
        trim_back(s) == s.subrange(0, j),
    decreases s.len(),
{
    if j == s.len() {
        if s.len() > 0 && is_space_char(s[s.len() - 1]) {
        } else {
            assert(s.subrange(0, s.len() as int) =~= s);
        }
    } else {
        lemma_trim_back_subrange(s.drop_last(), j);
        assert(s.drop_last().subrange(0, j) =~= s.subrange(0, j));
    }
}

/// Trimming keeps a sequence that has no space padding unchanged.
pub proof fn lemma_trimmed_clean(s: Seq<char>)
    requires
        s.len() > 0 ==> !is_space_char(s[0]) && !is_space_char(s[s.len() - 1]),
    ensures
        trimmed(s) == s,
{
    lemma_trim_front_subrange(s, 0);
    assert(s.subrange(0, s.len() as int) =~= s);
    lemma_trim_back_subrange(s, s.len() as int);
    assert(s.subrange(0, s.len() as int) =~= s);
}

/// Remove space characters from both ends of `s`.
pub fn trim(s: &str) -> (r: &str)
    ensures
        r@ == trimmed(s@),
{
    let n = s.unicode_len();
    let mut i: usize = 0;
    while i < n && is_space(s.get_char(i))
        invariant
            0 <= i <= n,
            n == s@.len(),
            forall|k: int| 0 <= k < i ==> is_space_char(s@[k]),
        decreases n - i,
    {
        i = i + 1;
    }
    let mut j: usize = n;
    while j > i && is_space(s.get_char(j - 1))
        invariant
            i <= j <= n,
            n == s@.len(),
            forall|k: int| j <= k < n ==> is_space_char(s@[k]),
        decreases j,
    {
        j = j - 1;
    }
    proof {
        lemma_trim_front_subrange(s@, i as int);
        let t = s@.subrange(i as int, n as int);
        lemma_trim_back_subrange(t, j - i);
        assert(t.subrange(0, j - i) =~= s@.subrange(i as int, j as int));
    }
    s.substring_char(i, j)
}

/// Executable twin of [`is_space_char`].
pub fn is_space(c: char) -> (r: bool)
    ensures
        r == is_space_char(c),
{
    c == ' ' || c == '\t' || c == '\r'
}

/// Index of the first occurrence of `c` in `s`, or `-1` if there is none.
pub open spec fn find_ch(s: Seq<char>, c: char) -> int
    decreases s.len(),
{
    if s.len() == 0 {
        -1
    } else if s[0] == c {
        0
    } else {
        let r = find_ch(s.drop_first(), c);
        if r == -1 {
            -1
        } else {
            r + 1
        }
    }
}

pub proof fn lemma_find_ch(s: Seq<char>, c: char)
    ensures
        find_ch(s, c) == -1 ==> forall|k: int| 0 <= k < s.len() ==> s[k] != c,
        find_ch(s, c) != -1 ==> {
            let r = find_ch(s, c);
            &&& 0 <= r < s.len()
            &&& s[r] == c
            &&& forall|k: int| 0 <= k < r ==> s[k] != c
        },
    decreases s.len(),
{
    if s.len() > 0 && s[0] != c {
        let t = s.drop_first();
        lemma_find_ch(t, c);
        assert(forall|k: int| 0 <= k < t.len() ==> t[k] == s[k + 1]);
        if find_ch(t, c) == -1 {
            assert(forall|k: int| 0 <= k < s.len() ==> s[k] != c) by {
                assert(forall|k: int| 1 <= k < s.len() ==> s[k] == t[k - 1]);
            }
        } else {
            let r = find_ch(t, c);
            assert(s[r + 1] == t[r]);
            assert(forall|k: int| 0 <= k < r + 1 ==> s[k] != c) by {
                assert(forall|k: int| 1 <= k < r + 1 ==> s[k] == t[k - 1]);
            }
        }
    }
}

/// Index of the first occurrence of `c` in `s`, if any.
pub fn find_char(s: &str, c: char) -> (r: Option<usize>)
    ensures
        r is None ==> find_ch(s@, c) == -1,
        r is Some ==> find_ch(s@, c) == r->Some_0,
{
    proof {
        lemma_find_ch(s@, c);
    }
    let n = s.unicode_len();
    let mut i: usize = 0;
    while i < n
        invariant
            0 <= i <= n,
            n == s@.len(),
            forall|k: int| 0 <= k < i ==> s@[k] != c,
        decreases n - i,
    {
        if s.get_char(i) == c {
            proof {
                lemma_find_ch_at(s@, c, i as int);
            }
            return Some(i);
        }
        i = i + 1;
    }
    None
}

/// When `c` stands at `i` and nowhere earlier, `find_ch` returns `i`.
pub proof fn lemma_find_ch_at(s: Seq<char>, c: char, i: int)
    requires
        0 <= i < s.len(),
        s[i] == c,
        forall|k: int| 0 <= k < i ==> s[k] != c,
    ensures
        find_ch(s, c) == i,
{
    lemma_find_ch(s, c);
}

/// Helper for [`line_split`]: lines of `s`, with `cur` the part of the
/// current line read so far.
pub open spec fn line_split_acc(cur: Seq<char>, s: Seq<char>) -> Seq<Seq<char>>
    decreases s.len(),
{
    if s.len() == 0 {
        seq![cur]
    } else if s[0] == '\n' {
        seq![cur] + line_split_acc(Seq::empty(), s.drop_first())
    } else {
        line_split_acc(cur.push(s[0]), s.drop_first())
    }
}

/// The lines of `s`: the pieces between newline characters, in order.
/// A trailing newline yields a final empty line, and an empty text is one
/// empty line.
pub open spec fn line_split(s: Seq<char>) -> Seq<Seq<char>> {
    line_split_acc(Seq::empty(), s)
}

pub proof fn lemma_line_split_acc_len(cur: Seq<char>, s: Seq<char>)
    ensures
        line_split_acc(cur, s).len() >= 1,
    decreases s.len(),
{
    if s.len() > 0 {
        if s[0] == '\n' {
            lemma_line_split_acc_len(Seq::empty(), s.drop_first());
        } else {
            lemma_line_split_acc_len(cur.push(s[0]), s.drop_first());
        }
    }
}

/// Reading a newline-terminated line that holds no newline itself emits
/// exactly that line.
pub proof fn lemma_line_split_acc_line(cur: Seq<char>, l: Seq<char>, rest: Seq<char>)
    requires
        forall|k: int| 0 <= k < l.len() ==> l[k] != '\n',
    ensures
        line_split_acc(cur, l + seq!['\n'] + rest) == seq![cur + l] + line_split_acc(
            Seq::empty(),
            rest,
        ),
    decreases l.len(),
{
    let s = l + seq!['\n'] + rest;
    if l.len() == 0 {
        assert(s[0] == '\n');
        assert(s.drop_first() =~= rest);
        assert(cur + l =~= cur);
    } else {
        assert(s[0] == l[0]);
        assert(s.drop_first() =~= l.drop_first() + seq!['\n'] + rest);
        lemma_line_split_acc_line(cur.push(l[0]), l.drop_first(), rest);
        assert(cur.push(l[0]) + l.drop_first() =~= cur + l);
    }
}

/// Splitting `l + "\n" + rest` starts with the line `l` when `l` holds no
/// newline.
pub proof fn lemma_line_split_line(l: Seq<char>, rest: Seq<char>)
    requires
        forall|k: int| 0 <= k < l.len() ==> l[k] != '\n',
    ensures
        line_split(l + seq!['\n'] + rest) == seq![l] + line_split(rest),
{
    lemma_line_split_acc_line(Seq::empty(), l, rest);
    assert(Seq::<char>::empty() + l =~= l);
}

/// Lines of a concatenation, when the first part ends with a newline: the
/// first part's lines but its trailing empty one, then the second part's.
pub proof fn lemma_line_split_acc_concat(cur: Seq<char>, a: Seq<char>, b: Seq<char>)
    requires
        a.len() > 0,
        a[a.len() - 1] == '\n',
    ensures
        line_split_acc(cur, a + b) == line_split_acc(cur, a).drop_last() + line_split_acc(
            Seq::empty(),
            b,
        ),
    decreases a.len(),
{
    let s = a + b;
    if a.len() == 1 {
        assert(s[0] == '\n');
        assert(s.drop_first() =~= b);
        assert(line_split_acc(cur, a) == seq![cur] + line_split_acc(
            Seq::empty(),
            a.drop_first(),
        ));
        assert(a.drop_first() =~= Seq::<char>::empty());
        assert(line_split_acc(cur, a) =~= seq![cur, Seq::<char>::empty()]);
        assert(line_split_acc(cur, a).drop_last() =~= seq![cur]);
        assert(line_split_acc(cur, s) == seq![cur] + line_split_acc(Seq::empty(), b));
    } else if a[0] == '\n' {
        assert(s[0] == '\n');
        assert(s.drop_first() =~= a.drop_first() + b);
        assert(a.drop_first()[a.drop_first().len() - 1] == '\n');
        lemma_line_split_acc_concat(Seq::empty(), a.drop_first(), b);
        lemma_line_split_acc_len(Seq::empty(), a.drop_first());
        assert((seq![cur] + line_split_acc(Seq::empty(), a.drop_first())).drop_last() =~= seq![cur]
            + line_split_acc(Seq::empty(), a.drop_first()).drop_last());
        assert(line_split_acc(cur, s) =~= line_split_acc(cur, a).drop_last() + line_split_acc(
            Seq::empty(),
            b,
        ));
    } else {
        assert(s[0] == a[0]);
        assert(s.drop_first() =~= a.drop_first() + b);
        assert(a.drop_first()[a.drop_first().len() - 1] == '\n');
        lemma_line_split_acc_concat(cur.push(a[0]), a.drop_first(), b);
    }
}

/// Appending a final newline adds one trailing empty line.
pub proof fn lemma_line_split_acc_final_newline(cur: Seq<char>, a: Seq<char>)
    ensures
        line_split_acc(cur, a + seq!['\n']) == line_split_acc(cur, a) + seq![
            Seq::<char>::empty(),
        ],
    decreases a.len(),
{
    let s = a + seq!['\n'];
    if a.len() == 0 {
        assert(s[0] == '\n');
        assert(s.drop_first() =~= Seq::<char>::empty());
        assert(line_split_acc(Seq::<char>::empty(), Seq::<char>::empty()) == seq![
            Seq::<char>::empty(),
        ]);
        assert(line_split_acc(cur, s) =~= seq![cur] + seq![Seq::<char>::empty()]);
        assert(a =~= Seq::<char>::empty());
        assert(line_split_acc(cur, a) == seq![cur]);
    } else if a[0] == '\n' {
        assert(s[0] == '\n');
        assert(s.drop_first() =~= a.drop_first() + seq!['\n']);
        lemma_line_split_acc_final_newline(Seq::empty(), a.drop_first());
        assert((seq![cur] + (line_split_acc(Seq::empty(), a.drop_first()) + seq![
            Seq::<char>::empty(),
        ])) =~= (seq![cur] + line_split_acc(Seq::empty(), a.drop_first())) + seq![
            Seq::<char>::empty(),
        ]);
    } else {
        assert(s[0] == a[0]);
        assert(s.drop_first() =~= a.drop_first() + seq!['\n']);
        lemma_line_split_acc_final_newline(cur.push(a[0]), a.drop_first());
    }
}

/// Split `s` into its lines.
pub fn split_lines(s: &str) -> (r: Vec<String>)
    ensures
        r.deep_view() == line_split(s@),
{
    let n = s.unicode_len();
    let mut out: Vec<String> = Vec::new();
    let mut start: usize = 0;
    let mut i: usize = 0;
    proof {
        assert(s@.subrange(0, 0) =~= Seq::<char>::empty());
        assert(s@.skip(0) =~= s@);
        assert(out.deep_view() =~= Seq::<Seq<char>>::empty());
    }
    while i < n
        invariant
            0 <= start <= i <= n,
            n == s@.len(),
            line_split(s@) == out.deep_view() + line_split_acc(
                s@.subrange(start as int, i as int),
                s@.skip(i as int),
            ),
        decreases n - i,
    {
        let c = s.get_char(i);
        proof {
            let suf = s@.skip(i as int);
            assert(suf[0] == s@[i as int]);
            assert(suf.drop_first() =~= s@.skip(i as int + 1));
            if c == '\n' {
            } else {
                assert(s@.subrange(start as int, i as int).push(s@[i as int]) =~= s@.subrange(
                    start as int,
                    i as int + 1,
                ));
            }
        }
        if c == '\n' {
            let piece = s.substring_char(start, i);
            out.push(String::from_str(piece));
            proof {
                assert(out.deep_view() =~= out.deep_view().drop_last() + seq![
                    s@.subrange(start as int, i as int),
                ]);
                assert(out.deep_view().drop_last() + seq![s@.subrange(start as int, i as int)]
                    + line_split_acc(Seq::empty(), s@.skip(i as int + 1)) =~= out.deep_view()
                    + line_split_acc(Seq::empty(), s@.skip(i as int + 1)));
            }
            start = i + 1;
            proof {
                assert(s@.subrange(start as int, start as int) =~= Seq::<char>::empty());
            }
        }
        i = i + 1;
    }
    proof {
        assert(s@.skip(n as int) =~= Seq::<char>::empty());
    }
    let piece = s.substring_char(start, n);
    out.push(String::from_str(piece));
    proof {
        assert(out.deep_view() =~= out.deep_view().drop_last() + seq![
            s@.subrange(start as int, n as int),
        ]);
    }
    out
}

/// Whether the views of two strings are the same character sequence.
pub fn str_eq(a: &str, b: &str) -> (r: bool)
    ensures
        r == (a@ == b@),
{
    let na = a.unicode_len();
    let nb = b.unicode_len();
    if na != nb {
        return false;
    }
    let mut i: usize = 0;
    while i < na
        invariant
            0 <= i <= na,
            na == a@.len(),
            na == b@.len(),
            forall|k: int| 0 <= k < i ==> a@[k] == b@[k],
        decreases na - i,
    {
        if a.get_char(i) != b.get_char(i) {
            return false;
        }
        i = i + 1;
    }
    proof {
        assert(a@ =~= b@);
    }
    true
}


/// The first character a front-trim leaves is never a space.
pub proof fn lemma_trim_front_first(s: Seq<char>)
    ensures
        trim_front(s).len() > 0 ==> !is_space_char(trim_front(s)[0]),
    decreases s.len(),
{
    if s.len() > 0 && is_space_char(s[0]) {
        lemma_trim_front_first(s.drop_first());
    }
}

/// A back-trim keeps the prefix it does not remove, and never leaves a
/// trailing space.
pub proof fn lemma_trim_back_props(s: Seq<char>)
    ensures
        trim_back(s).len() <= s.len(),
        forall|i: int| 0 <= i < trim_back(s).len() ==> trim_back(s)[i] == s[i],
        trim_back(s).len() > 0 ==> !is_space_char(trim_back(s)[trim_back(s).len() - 1]),
    decreases s.len(),
{
    if s.len() > 0 && is_space_char(s[s.len() - 1]) {
        lemma_trim_back_props(s.drop_last());
        assert(forall|i: int| 0 <= i < s.drop_last().len() ==> s.drop_last()[i] == s[i]);
    }
}

/// Trimming is idempotent.
pub proof fn lemma_trimmed_idempotent(s: Seq<char>)
    ensures
        trimmed(trimmed(s)) == trimmed(s),
{
    let t = trimmed(s);
    if t.len() == 0 {
        assert(trim_front(t) == t);
        assert(trim_back(trim_front(t)) == t);
    } else {
        lemma_trim_front_first(s);
        lemma_trim_back_props(trim_front(s));
        assert(!is_space_char(t[0]));
        assert(!is_space_char(t[t.len() - 1]));
        lemma_trimmed_clean(t);
    }
}

} // verus!
