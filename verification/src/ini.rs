//! The sectioned key = value file format of the config and credentials
//! stores: lines, sections, and the parse of a whole text.
//!
//! A line is blank (only space characters), a section header (`[name]`,
//! possibly padded with spaces), or a key/value pair (first `=` splits it,
//! both halves trimmed). Anything else is malformed; so is a pair line
//! before the first header.

use vstd::prelude::*;
use vstd::string::*;

use crate::text::{find_ch, line_split, trimmed, find_char, split_lines, str_eq, trim};

verus! {

/// What one line of a store file says.
pub enum LineShape {
    /// Only space characters.
    Blank,
    /// `[name]`: opens the section `name`.
    Header(Seq<char>),
    /// `key = value`.
    Pair(Seq<char>, Seq<char>),
    /// None of the above: the file is malformed.
    Bad,
}

/// The shape of the line `l` (without its newline).
pub open spec fn classify_line(l: Seq<char>) -> LineShape {
    let t = trimmed(l);
    if t.len() == 0 {
        LineShape::Blank
    } else if t[0] == '[' {
        if t.len() >= 2 && t[t.len() - 1] == ']' {
            LineShape::Header(t.subrange(1, t.len() - 1))
        } else {
            LineShape::Bad
        }
    } else {
        let e = find_ch(t, '=');
        if e >= 0 {
            LineShape::Pair(
                trimmed(t.subrange(0, e)),
                trimmed(t.subrange(e + 1, t.len() as int)),
            )
        } else {
            LineShape::Bad
        }
    }
}

/// Executable form of [`LineShape`].
pub enum LineToken {
    Blank,
    Header(String),
    Pair(String, String),
    Bad,
}

impl View for LineToken {
    type V = LineShape;

    open spec fn view(&self) -> LineShape {
        match self {
            LineToken::Blank => LineShape::Blank,
            LineToken::Header(n) => LineShape::Header(n@),
            LineToken::Pair(k, v) => LineShape::Pair(k@, v@),
            LineToken::Bad => LineShape::Bad,
        }
    }
}

/// Read one line.
pub fn parse_line(l: &str) -> (r: LineToken)
    ensures
        r@ == classify_line(l@),
{
    let t = trim(l);
    let n = t.unicode_len();
    if n == 0 {
        return LineToken::Blank;
    }
    if t.get_char(0) == '[' {
        if n >= 2 && t.get_char(n - 1) == ']' {
            LineToken::Header(String::from_str(t.substring_char(1, n - 1)))
        } else {
            LineToken::Bad
        }
    } else {
        match find_char(t, '=') {
            Some(e) => {
                proof {
                    crate::text::lemma_find_ch(t@, '=');
                }
                let k = trim(t.substring_char(0, e));
                let v = trim(t.substring_char(e + 1, n));
                LineToken::Pair(String::from_str(k), String::from_str(v))
            },
            None => LineToken::Bad,
        }
    }
}

/// One section: its name and its key/value pairs in file order.
#[verifier::ext_equal]
pub struct SectionV {
    pub name: Seq<char>,
    pub entries: Seq<(Seq<char>, Seq<char>)>,
}

/// Executable form of [`SectionV`].
pub struct Section {
    pub name: String,
    pub entries: Vec<(String, String)>,
}

/// The pairs of `es`, as character sequences.
pub open spec fn entries_view(es: Seq<(String, String)>) -> Seq<(Seq<char>, Seq<char>)> {
    es.map_values(|p: (String, String)| (p.0@, p.1@))
}

impl View for Section {
    type V = SectionV;

    open spec fn view(&self) -> SectionV {
        SectionV { name: self.name@, entries: entries_view(self.entries@) }
    }
}

impl DeepView for Section {
    type V = SectionV;

    open spec fn deep_view(&self) -> SectionV {
        self.view()
    }
}

/// The sections of the remaining lines `ls`, with `cur` the section whose
/// header was already read.
pub open spec fn parse_rest(ls: Seq<Seq<char>>, cur: SectionV) -> Option<Seq<SectionV>>
    decreases ls.len(),
{
    if ls.len() == 0 {
        Some(seq![cur])
    } else {
        match classify_line(ls[0]) {
            LineShape::Blank => parse_rest(ls.drop_first(), cur),
            LineShape::Header(n) => match parse_rest(
                ls.drop_first(),
                SectionV { name: n, entries: Seq::empty() },
            ) {
                Some(ss) => Some(seq![cur] + ss),
                None => None,
            },
            LineShape::Pair(k, v) => parse_rest(
                ls.drop_first(),
                SectionV { name: cur.name, entries: cur.entries.push((k, v)) },
            ),
            LineShape::Bad => None,
        }
    }
}

/// The sections that the lines `ls` spell out, or `None` if some line is
/// malformed or a pair stands before the first header.
pub open spec fn parse_sections(ls: Seq<Seq<char>>) -> Option<Seq<SectionV>>
    decreases ls.len(),
{
    if ls.len() == 0 {
        Some(Seq::empty())
    } else {
        match classify_line(ls[0]) {
            LineShape::Blank => parse_sections(ls.drop_first()),
            LineShape::Header(n) => parse_rest(
                ls.drop_first(),
                SectionV { name: n, entries: Seq::empty() },
            ),
            LineShape::Pair(k, v) => None,
            LineShape::Bad => None,
        }
    }
}

/// The sections of the whole text `s`, or `None` if it is malformed.
pub open spec fn sections_of_text(s: Seq<char>) -> Option<Seq<SectionV>> {
    parse_sections(line_split(s))
}

/// `o` with `pre` put before its sections, when it has any.
pub open spec fn opt_prepend(pre: Seq<SectionV>, o: Option<Seq<SectionV>>) -> Option<
    Seq<SectionV>,
> {
    match o {
        Some(ss) => Some(pre + ss),
        None => None,
    }
}

/// Parse a whole store text into its sections; `None` means malformed text.
pub fn parse_text(s: &str) -> (r: Option<Vec<Section>>)
    ensures
        r is Some ==> sections_of_text(s@) == Some(r->Some_0.deep_view()),
        r is None ==> sections_of_text(s@) is None,
{
    let lines = split_lines(s);
    let ghost lsv = line_split(s@);
    let mut done: Vec<Section> = Vec::new();
    let mut cur_name: String = String::new();
    let mut cur_entries: Vec<(String, String)> = Vec::new();
    let mut in_section: bool = false;
    let mut i: usize = 0;
    proof {
        assert(lsv.skip(0) =~= lsv);
    }
    while i < lines.len()
        invariant
            0 <= i <= lines.len(),
            lines.deep_view() == lsv,
            parse_sections(line_split(s@)) == parse_sections(lsv),
            !in_section ==> done@.len() == 0 && parse_sections(lsv) == parse_sections(
                lsv.skip(i as int),
            ),
            in_section ==> parse_sections(lsv) == opt_prepend(
                done.deep_view(),
                parse_rest(
                    lsv.skip(i as int),
                    SectionV { name: cur_name@, entries: entries_view(cur_entries@) },
                ),
            ),
        decreases lines.len() - i,
    {
        proof {
            let suf = lsv.skip(i as int);
            assert(suf[0] == lsv[i as int]);
            assert(suf.drop_first() =~= lsv.skip(i as int + 1));
            assert(lines@[i as int]@ == lsv[i as int]);
        }
        let tok = parse_line(lines[i].as_str());
        match tok {
            LineToken::Blank => {},
            LineToken::Bad => {
                return None;
            },
            LineToken::Header(nm) => {
                let ghost old_done = done.deep_view();
                let ghost old_cur = SectionV {
                    name: cur_name@,
                    entries: entries_view(cur_entries@),
                };
                if in_section {
                    let finished = Section { name: cur_name, entries: cur_entries };
                    done.push(finished);
                    proof {
                        assert(done.deep_view() =~= old_done + seq![old_cur]);
                    }
                } else {
                    in_section = true;
                    proof {
                        assert(done.deep_view() =~= Seq::<SectionV>::empty());
                    }
                }
                cur_name = nm;
                cur_entries = Vec::new();
                proof {
                    assert(entries_view(cur_entries@) =~= Seq::<(Seq<char>, Seq<char>)>::empty());
                    match parse_rest(
                        lsv.skip(i as int + 1),
                        SectionV { name: cur_name@, entries: entries_view(cur_entries@) },
                    ) {
                        Some(ss) => {
                            assert(old_done + (seq![old_cur] + ss) =~= (old_done + seq![old_cur])
                                + ss);
                            assert(Seq::<SectionV>::empty() + ss =~= ss);
                        },
                        None => {},
                    }
                }
            },
            LineToken::Pair(k, v) => {
                if !in_section {
                    return None;
                }
                let ghost old_entries = entries_view(cur_entries@);
                let ghost kk = k@;
                let ghost vv = v@;
                cur_entries.push((k, v));
                proof {
                    assert(entries_view(cur_entries@) =~= old_entries.push((kk, vv)));
                }
            },
        }
        i = i + 1;
    }
    proof {
        assert(lsv.skip(lines.len() as int) =~= Seq::<Seq<char>>::empty());
    }
    if in_section {
        let ghost old_done = done.deep_view();
        let ghost old_cur = SectionV { name: cur_name@, entries: entries_view(cur_entries@) };
        let finished = Section { name: cur_name, entries: cur_entries };
        done.push(finished);
        proof {
            assert(done.deep_view() =~= old_done + seq![old_cur]);
        }
    } else {
        proof {
            assert(done.deep_view() =~= Seq::<SectionV>::empty());
        }
    }
    Some(done)
}

/// The value of the last pair with key `k` in `es`, if any: later pairs
/// shadow earlier ones.
pub open spec fn entry_lookup(es: Seq<(Seq<char>, Seq<char>)>, k: Seq<char>) -> Option<Seq<char>>
    decreases es.len(),
{
    if es.len() == 0 {
        None
    } else if es.last().0 == k {
        Some(es.last().1)
    } else {
        entry_lookup(es.drop_last(), k)
    }
}

/// Whether some pair of `es` has the key `k`.
pub open spec fn has_entry_key(es: Seq<(Seq<char>, Seq<char>)>, k: Seq<char>) -> bool {
    entry_lookup(es, k) is Some
}

/// Lookup distributes over concatenation: the right part shadows the left.
pub proof fn lemma_entry_lookup_concat(
    a: Seq<(Seq<char>, Seq<char>)>,
    b: Seq<(Seq<char>, Seq<char>)>,
    k: Seq<char>,
)
    ensures
        entry_lookup(a + b, k) == match entry_lookup(b, k) {
            Some(v) => Some(v),
            None => entry_lookup(a, k),
        },
    decreases b.len(),
{
    if b.len() == 0 {
        assert(a + b =~= a);
    } else {
        assert((a + b).last() == b.last());
        assert((a + b).drop_last() =~= a + b.drop_last());
        lemma_entry_lookup_concat(a, b.drop_last(), k);
    }
}

/// The value under `k` in `entries`, cloned out.
pub fn entry_value(entries: &Vec<(String, String)>, k: &str) -> (r: Option<String>)
    ensures
        match entry_lookup(entries_view(entries@), k@) {
            Some(v) => r is Some && r->Some_0@ == v,
            None => r is None,
        },
{
    let ghost esv = entries_view(entries@);
    let mut j: usize = entries.len();
    proof {
        assert(esv.take(entries@.len() as int) =~= esv);
    }
    while j > 0
        invariant
            0 <= j <= entries@.len(),
            esv == entries_view(entries@),
            entry_lookup(esv, k@) == entry_lookup(esv.take(j as int), k@),
        decreases j,
    {
        proof {
            assert(esv.take(j as int).last() == esv[j - 1]);
            assert(esv.take(j as int).drop_last() =~= esv.take(j as int - 1));
        }
        if str_eq(entries[j - 1].0.as_str(), k) {
            return Some(entries[j - 1].1.clone());
        }
        j = j - 1;
    }
    proof {
        assert(esv.take(0) =~= Seq::<(Seq<char>, Seq<char>)>::empty());
    }
    None
}

} // verus!
