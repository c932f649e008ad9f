//! The leaf utilities of the engine: ordered key/value attribute parsing,
//! `${key}` substitution, delimited-region extraction, and unindentation
//! of markdown blocks, each against an exact specification.

use vstd::prelude::*;
use crate::error::{err_is, ErrorType, ProcessError, WithItem};
use crate::text::{
    contains_at, copy_chars, copy_range, from_chars, push_all, spec_find, spec_replace,
    find_from, replace_all, to_chars,
};

verus! {

/// The result of one resolution call: the resolved text, the diagnostics
/// gathered along the way, whether math was rendered, and the standalone
/// output files queued by template entries.
pub struct ProcessResult {
    pub output: String,
    pub errors: Vec<ProcessError>,
    pub math_used: bool,
    pub writes: Vec<OutputFile>,
}

/// One output file the build must write: a path relative to the output
/// root, and the bytes to write there.
pub struct OutputFile {
    pub path: String,
    pub bytes: Vec<u8>,
}

/// A word character of an attribute key.
pub open spec fn is_word_char(c: char) -> bool {
    (97 <= c as u32 && c as u32 <= 122) || (65 <= c as u32 && c as u32 <= 90) || (48 <= c as u32
        && c as u32 <= 57) || c as u32 == 95
}

/// A quote character delimiting an attribute value.
pub open spec fn is_quote(c: char) -> bool {
    c == '\'' || c == '"'
}

fn word_char(c: char) -> (b: bool)
    ensures
        b == is_word_char(c),
{
    let u = c as u32;
    (97 <= u && u <= 122) || (65 <= u && u <= 90) || (48 <= u && u <= 57) || u == 95
}

fn quote_char(c: char) -> (b: bool)
    ensures
        b == is_quote(c),
{
    c == '\'' || c == '"'
}

/// End of the maximal run of word characters starting at `i`.
pub open spec fn word_run_end(s: Seq<char>, i: int) -> int
    decreases s.len() - i,
{
    if 0 <= i && i < s.len() && is_word_char(s[i]) {
        word_run_end(s, i + 1)
    } else {
        i
    }
}

fn word_run_end_exec(s: &Vec<char>, i: usize) -> (r: usize)
    requires
        i <= s@.len(),
    ensures
        r == word_run_end(s@, i as int),
        i <= r <= s@.len(),
    decreases s@.len() - i,
{
    if i < s.len() && word_char(s[i]) {
        word_run_end_exec(s, i + 1)
    } else {
        i
    }
}

/// First index `>= j` holding the quote `q`, unless a newline comes
/// first: a quoted value may not span lines.
pub open spec fn close_quote(s: Seq<char>, q: char, j: int) -> Option<int>
    decreases s.len() - j,
{
    if !(0 <= j && j < s.len()) {
        None
    } else if s[j] == q {
        Some(j)
    } else if s[j] == '\n' {
        None
    } else {
        close_quote(s, q, j + 1)
    }
}

pub proof fn lemma_close_quote(s: Seq<char>, q: char, j: int)
    requires
        0 <= j,
    ensures
        close_quote(s, q, j) matches Some(c) ==> j <= c < s.len(),
    decreases s.len() - j,
{
    if 0 <= j && j < s.len() && s[j] != q && s[j] != '\n' {
        lemma_close_quote(s, q, j + 1);
    }
}

fn close_quote_exec(s: &Vec<char>, q: char, j: usize) -> (r: Option<usize>)
    ensures
        match r {
            Some(c) => close_quote(s@, q, j as int) == Some(c as int) && j <= c < s@.len(),
            None => close_quote(s@, q, j as int) is None,
        },
    decreases s@.len() - j,
{
    if j >= s.len() {
        None
    } else if s[j] == q {
        Some(j)
    } else if s[j] == '\n' {
        None
    } else {
        close_quote_exec(s, q, j + 1)
    }
}

/// Leading quote characters removed, of either kind.
pub open spec fn trim_lead_quotes(s: Seq<char>) -> Seq<char>
    decreases s.len(),
{
    if s.len() > 0 && is_quote(s[0]) {
        trim_lead_quotes(s.drop_first())
    } else {
        s
    }
}

/// Trailing quote characters removed, of either kind.
pub open spec fn trim_trail_quotes(s: Seq<char>) -> Seq<char>
    decreases s.len(),
{
    if s.len() > 0 && is_quote(s.last()) {
        trim_trail_quotes(s.drop_last())
    } else {
        s
    }
}

fn trim_lead_quotes_exec(s: Vec<char>) -> (r: Vec<char>)
    ensures
        r@ == trim_lead_quotes(s@),
    decreases s@.len(),
{
    if s.len() > 0 && quote_char(s[0]) {
        let t = copy_range(&s, 1, s.len());
        proof {
            assert(t@ =~= s@.drop_first());
        }
        trim_lead_quotes_exec(t)
    } else {
        s
    }
}

fn trim_trail_quotes_exec(s: Vec<char>) -> (r: Vec<char>)
    ensures
        r@ == trim_trail_quotes(s@),
    decreases s@.len(),
{
    if s.len() > 0 && quote_char(s[s.len() - 1]) {
        let t = copy_range(&s, 0, s.len() - 1);
        proof {
            assert(t@ =~= s@.drop_last());
        }
        trim_trail_quotes_exec(t)
    } else {
        s
    }
}

/// The attribute pair starting exactly at `i`: a non-empty word run, `=`,
/// a quote, a same-line value, the matching quote.  Yields the end of the
/// key and the index of the closing quote.
pub open spec fn attr_at(s: Seq<char>, i: int) -> Option<(int, int)> {
    let k = word_run_end(s, i);
    if !(0 <= i && i < s.len()) || k == i {
        None
    } else if k + 1 < s.len() && s[k] == '=' && is_quote(s[k + 1]) {
        match close_quote(s, s[k + 1], k + 2) {
            Some(c) => Some((k, c)),
            None => None,
        }
    } else {
        None
    }
}

/// The value of a matched pair: the quoted region with quote characters
/// of either kind trimmed from both ends.
pub open spec fn attr_value(s: Seq<char>, k: int, c: int) -> Seq<char> {
    trim_trail_quotes(trim_lead_quotes(s.subrange(k + 1, c + 1)))
}

/// All attribute pairs of `s` at or after `i`, leftmost first,
/// non-overlapping.  Text that starts no key is skipped; a key (a word
/// run) without a parseable `=value` part makes the whole region
/// malformed, yielding `None`.
pub open spec fn scan_attrs(s: Seq<char>, i: int) -> Option<Seq<(Seq<char>, Seq<char>)>>
    decreases s.len() - i, 0nat,
{
    if !(0 <= i && i < s.len()) {
        Some(Seq::empty())
    } else if is_word_char(s[i]) {
        match attr_at(s, i) {
            Some((k, c)) => if i < c + 1 <= s.len() {
                match scan_attrs(s, c + 1) {
                    Some(rest) => Some(seq![(s.subrange(i, k), attr_value(s, k, c))] + rest),
                    None => None,
                }
            } else {
                None
            },
            None => None,
        }
    } else {
        scan_attrs(s, i + 1)
    }
}

/// The message a malformed pair yields.
pub open spec fn attr_err_msg() -> Seq<char> {
    "Couldn't split key-value pair."@
}

/// The views of a vector of owned string pairs.
pub open spec fn pairs_view(s: Seq<(String, String)>) -> Seq<(Seq<char>, Seq<char>)> {
    s.map_values(|p: (String, String)| (p.0@, p.1@))
}

/// The views of a list of key/value records.
pub open spec fn kvs_pairs_view(kvs: Seq<Vec<(String, String)>>) -> Seq<
    Seq<(Seq<char>, Seq<char>)>,
> {
    kvs.map_values(|v: Vec<(String, String)>| pairs_view(v@))
}

/// One parsing step of the attribute scanner.
fn scan_attrs_step(s: &Vec<char>, i: usize) -> (r: Option<(usize, usize)>)
    requires
        i < s@.len(),
    ensures
        match r {
            Some((k, c)) => attr_at(s@, i as int) == Some((k as int, c as int)) && i <= k && k + 2
                <= c < s@.len(),
            None => attr_at(s@, i as int) is None,
        },
{
    let n = s.len();
    let k = word_run_end_exec(s, i);
    if k == i {
        return None;
    }
    if k < n && s[k] == '=' && k + 1 < n && quote_char(s[k + 1]) {
        match close_quote_exec(s, s[k + 1], k + 2) {
            Some(c) => {
                proof {
                    lemma_close_quote(s@, s@[k as int + 1], k + 2);
                }
                Some((k, c))
            },
            None => None,
        }
    } else {
        None
    }
}

/// Extracts the ordered `key="value"` / `key='value'` pairs from the
/// attribute region of a matched tag, preserving order and stripping
/// matching quotes.  Text that starts no key is skipped, but a key
/// without a parseable `=value` part yields a `Syntax` diagnostic and
/// no partial pair list.
pub fn get_targets_kv(name: &str, found: &str) -> (r: Result<
    Vec<(String, String)>,
    ProcessError,
>)
    ensures
        r is Ok <==> scan_attrs(attr_region(name@, found@), 0) is Some,
        r matches Ok(v) ==> Some(pairs_view(v@)) == scan_attrs(attr_region(name@, found@), 0),
        r matches Err(e) ==> err_is(e, ErrorType::Syntax, WithItem::Component, name@) && (
        e.message matches Some(m) && m@ == attr_err_msg()),
{
    let region = attr_region_exec(name, found);
    let mut out: Vec<(String, String)> = Vec::new();
    let mut i: usize = 0;
    while i < region.len()
        invariant
            region@ == attr_region(name@, found@),
            scan_attrs(region@, 0) == (match scan_attrs(region@, i as int) {
                Some(rest) => Some(pairs_view(out@) + rest),
                None => None::<Seq<(Seq<char>, Seq<char>)>>,
            }),
        decreases region@.len() - i,
    {
        if !word_char(region[i]) {
            i += 1;
            continue;
        }
        match scan_attrs_step(&region, i) {
            Some((k, c)) => {
                let key = from_chars(&copy_range(&region, i, k));
                let raw = copy_range(&region, k + 1, c + 1);
                let value = from_chars(&trim_trail_quotes_exec(trim_lead_quotes_exec(raw)));
                let ghost out0 = out@;
                out.push((key, value));
                proof {
                    assert(pairs_view(out@) =~= pairs_view(out0) + seq![
                        (region@.subrange(i as int, k as int), attr_value(
                            region@,
                            k as int,
                            c as int,
                        )),
                    ]);
                    if scan_attrs(region@, c + 1) is Some {
                        assert(pairs_view(out0) + (seq![
                            (region@.subrange(i as int, k as int), attr_value(
                                region@,
                                k as int,
                                c as int,
                            )),
                        ] + scan_attrs(region@, c + 1)->Some_0) =~= pairs_view(out@)
                            + scan_attrs(region@, c + 1)->Some_0);
                    }
                }
                i = c + 1;
            },
            None => {
                proof {
                    assert(scan_attrs(region@, i as int) is None);
                }
                return Err(
                    ProcessError {
                        error_type: ErrorType::Syntax,
                        item: WithItem::Component,
                        path: from_chars(&to_chars(name)),
                        message: Some(from_chars(&to_chars("Couldn't split key-value pair."))),
                    },
                );
            },
        }
    }
    proof {
        assert(scan_attrs(region@, i as int) == Some(Seq::<(Seq<char>, Seq<char>)>::empty()));
        assert(pairs_view(out@) + Seq::<(Seq<char>, Seq<char>)>::empty() =~= pairs_view(out@));
    }
    Ok(out)
}

/// The text stripped of the leading `<Name` and of trailing `>` and `/>`
/// runs: the region the attribute scanner reads.
pub open spec fn attr_region(name: Seq<char>, found: Seq<char>) -> Seq<char> {
    trim_end_pat(trim_end_ch(strip_prefix(found, "<"@ + name), '>'), "/>"@)
}

/// `s` without the prefix `p`, or `s` itself when it does not start so.
pub open spec fn strip_prefix(s: Seq<char>, p: Seq<char>) -> Seq<char> {
    if contains_at(s, 0, p) {
        s.skip(p.len() as int)
    } else {
        s
    }
}

/// `s` without any trailing run of the character `c`.
pub open spec fn trim_end_ch(s: Seq<char>, c: char) -> Seq<char>
    decreases s.len(),
{
    if s.len() > 0 && s.last() == c {
        trim_end_ch(s.drop_last(), c)
    } else {
        s
    }
}

/// `s` without any trailing repetitions of the pattern `p`.
pub open spec fn trim_end_pat(s: Seq<char>, p: Seq<char>) -> Seq<char>
    decreases s.len(),
{
    if p.len() > 0 && s.len() >= p.len() && s.subrange(s.len() - p.len(), s.len() as int) == p {
        trim_end_pat(s.take(s.len() - p.len()), p)
    } else {
        s
    }
}

fn trim_end_ch_exec(s: Vec<char>, c: char) -> (r: Vec<char>)
    ensures
        r@ == trim_end_ch(s@, c),
    decreases s@.len(),
{
    if s.len() > 0 && s[s.len() - 1] == c {
        let t = copy_range(&s, 0, s.len() - 1);
        proof {
            assert(t@ =~= s@.drop_last());
        }
        trim_end_ch_exec(t, c)
    } else {
        s
    }
}

fn trim_end_pat_exec(s: Vec<char>, p: &Vec<char>) -> (r: Vec<char>)
    ensures
        r@ == trim_end_pat(s@, p@),
    decreases s@.len(),
{
    if p.len() > 0 && s.len() >= p.len() {
        let hit = crate::text::match_at(&s, p, s.len() - p.len());
        if hit {
            let t = copy_range(&s, 0, s.len() - p.len());
            proof {
                assert(t@ =~= s@.take(s@.len() - p@.len()));
            }
            return trim_end_pat_exec(t, p);
        }
    }
    s
}

fn attr_region_exec(name: &str, found: &str) -> (r: Vec<char>)
    ensures
        r@ == attr_region(name@, found@),
{
    let f = to_chars(found);
    let mut tag: Vec<char> = to_chars("<");
    push_all(&mut tag, &to_chars(name));
    proof {
        assert(tag@ =~= "<"@ + name@);
    }
    let stripped: Vec<char> = if tag.len() <= f.len() {
        let hit = crate::text::match_at(&f, &tag, 0);
        if hit {
            copy_range(&f, tag.len(), f.len())
        } else {
            f
        }
    } else {
        f
    };
    proof {
        assert(stripped@ =~= strip_prefix(found@, "<"@ + name@));
    }
    let t1 = trim_end_ch_exec(stripped, '>');
    trim_end_pat_exec(t1, &to_chars("/>"))
}

/// `from` with `${key}` replaced by the value, for each pair in order.
pub open spec fn spec_kv_replace(
    kv: Seq<(Seq<char>, Seq<char>)>,
    from: Seq<char>,
    i: int,
) -> Seq<char>
    decreases kv.len() - i,
{
    if i < 0 || i >= kv.len() {
        from
    } else {
        spec_kv_replace(kv, spec_replace(from, "${"@ + kv[i].0 + "}"@, kv[i].1), i + 1)
    }
}

/// Substitutes `${key}` tokens from the ordered pair list into `from`,
/// first pair first.  Unmatched placeholders are left verbatim.
pub fn kv_replace(kv: Vec<(String, String)>, from: String) -> (r: String)
    ensures
        r@ == spec_kv_replace(pairs_view(kv@), from@, 0),
{
    let mut cur: Vec<char> = to_chars(from.as_str());
    let mut i: usize = 0;
    while i < kv.len()
        invariant
            i <= kv@.len(),
            spec_kv_replace(pairs_view(kv@), from@, 0) == spec_kv_replace(
                pairs_view(kv@),
                cur@,
                i as int,
            ),
        decreases kv@.len() - i,
    {
        let mut pat: Vec<char> = to_chars("${");
        push_all(&mut pat, &to_chars(kv[i].0.as_str()));
        push_all(&mut pat, &to_chars("}"));
        proof {
            assert(pat@ =~= "${"@ + pairs_view(kv@)[i as int].0 + "}"@);
        }
        let next = replace_all(&cur, &pat, &to_chars(kv[i].1.as_str()));
        cur = next;
        i += 1;
    }
    from_chars(&cur)
}

/// The text strictly between the first occurrence of `from` and the next
/// occurrence of `to` after it; `None` when either marker is missing or
/// the region is empty.
pub open spec fn spec_get_inside(s: Seq<char>, f: Seq<char>, t: Seq<char>) -> Option<Seq<char>> {
    match spec_find(s, f, 0) {
        None => None,
        Some(i) => {
            let start = i + f.len();
            match spec_find(s, t, start) {
                None => None,
                Some(j) => if start >= j {
                    None
                } else {
                    Some(s.subrange(start, j))
                },
            }
        },
    }
}

/// Extracts the region between the delimiters `from` and `to`.
pub fn get_inside(input: String, from: &str, to: &str) -> (r: Option<String>)
    ensures
        match r {
            Some(v) => spec_get_inside(input@, from@, to@) == Some(v@),
            None => spec_get_inside(input@, from@, to@) is None,
        },
{
    let s = to_chars(input.as_str());
    let f = to_chars(from);
    let t = to_chars(to);
    match find_from(&s, &f, 0) {
        None => None,
        Some(i) => {
            let n = s.len();
            proof {
                crate::text::lemma_spec_find(s@, f@, 0);
                assert(i + f@.len() <= n);
            }
            let start = i + f.len();
            match find_from(&s, &t, start) {
                None => None,
                Some(j) => {
                    proof {
                        crate::text::lemma_spec_find(s@, t@, start as int);
                    }
                    if start >= j {
                        None
                    } else {
                        Some(from_chars(&copy_range(&s, start, j)))
                    }
                },
            }
        },
    }
}

/// A whitespace character, as found inside one line.  Indentation is
/// counted over ASCII whitespace only; exotic whitespace is deliberately
/// not trimmed.
pub open spec fn is_space(c: char) -> bool {
    c == ' ' || c == '\t' || c == '\r' || c as u32 == 11 || c as u32 == 12
}

fn space_char(c: char) -> (b: bool)
    ensures
        b == is_space(c),
{
    let u = c as u32;
    c == ' ' || c == '\t' || c == '\r' || u == 11 || u == 12
}

/// One trailing carriage return removed: a `\r\n` ending leaves neither.
pub open spec fn strip_cr(l: Seq<char>) -> Seq<char> {
    if l.len() > 0 && l.last() == '\r' {
        l.drop_last()
    } else {
        l
    }
}

/// The lines of `s` from `pos` on, split at `\n`, each stripped of a
/// trailing `\r`; a final line ending produces no empty last line.
pub open spec fn spec_lines(s: Seq<char>, pos: int) -> Seq<Seq<char>>
    decreases s.len() - pos,
{
    if !(0 <= pos && pos < s.len()) {
        Seq::empty()
    } else {
        match spec_find(s, seq!['\n'], pos) {
            None => seq![s.skip(pos)],
            Some(i) => if pos <= i && i < s.len() {
                seq![strip_cr(s.subrange(pos, i))] + spec_lines(s, i + 1)
            } else {
                Seq::empty()
            },
        }
    }
}

/// The views of a vector of lines.
pub open spec fn lines_view(v: Seq<Vec<char>>) -> Seq<Seq<char>> {
    v.map_values(|l: Vec<char>| l@)
}

fn strip_cr_exec(l: Vec<char>) -> (r: Vec<char>)
    ensures
        r@ == strip_cr(l@),
{
    if l.len() > 0 && l[l.len() - 1] == '\r' {
        let t = copy_range(&l, 0, l.len() - 1);
        proof {
            assert(t@ =~= l@.drop_last());
        }
        t
    } else {
        l
    }
}

fn split_lines(s: &Vec<char>) -> (r: Vec<Vec<char>>)
    ensures
        lines_view(r@) == spec_lines(s@, 0),
{
    let nl: Vec<char> = to_chars("\n");
    proof {
        reveal_strlit("\n");
        assert(nl@ =~= seq!['\n']);
    }
    let mut out: Vec<Vec<char>> = Vec::new();
    let mut pos: usize = 0;
    while pos < s.len()
        invariant
            nl@ == seq!['\n'],
            pos <= s@.len(),
            spec_lines(s@, 0) =~= lines_view(out@) + spec_lines(s@, pos as int),
        decreases s@.len() - pos,
    {
        let ghost out0 = out@;
        match find_from(s, &nl, pos) {
            None => {
                out.push(copy_range(s, pos, s.len()));
                proof {
                    assert(out@.last()@ =~= s@.skip(pos as int));
                    assert(lines_view(out@) =~= lines_view(out0) + seq![s@.skip(pos as int)]);
                    assert(spec_lines(s@, 0) =~= lines_view(out@));
                }
                return out;
            },
            Some(i) => {
                proof {
                    crate::text::lemma_spec_find(s@, nl@, pos as int);
                }
                out.push(strip_cr_exec(copy_range(s, pos, i)));
                proof {
                    assert(lines_view(out@) =~= lines_view(out0) + seq![
                        strip_cr(s@.subrange(pos as int, i as int)),
                    ]);
                    assert(spec_lines(s@, 0) =~= lines_view(out@) + spec_lines(s@, i + 1));
                }
                pos = i + 1;
            },
        }
    }
    out
}

/// A line whose characters are all whitespace.
pub open spec fn blank_line(l: Seq<char>) -> bool {
    forall|j: int| 0 <= j < l.len() ==> is_space(l[j])
}

fn blank_exec(l: &Vec<char>) -> (b: bool)
    ensures
        b == blank_line(l@),
{
    let mut j: usize = 0;
    while j < l.len()
        invariant
            j <= l@.len(),
            forall|k: int| 0 <= k < j ==> is_space(l@[k]),
        decreases l@.len() - j,
    {
        if !space_char(l[j]) {
            return false;
        }
        j += 1;
    }
    true
}

/// End of the leading whitespace run starting at `i`.
pub open spec fn lead_spaces(l: Seq<char>, i: int) -> int
    decreases l.len() - i,
{
    if 0 <= i && i < l.len() && is_space(l[i]) {
        lead_spaces(l, i + 1)
    } else {
        i
    }
}

fn lead_spaces_exec(l: &Vec<char>, i: usize) -> (r: usize)
    requires
        i <= l@.len(),
    ensures
        r == lead_spaces(l@, i as int),
        i <= r <= l@.len(),
    decreases l@.len() - i,
{
    if i < l.len() && space_char(l[i]) {
        lead_spaces_exec(l, i + 1)
    } else {
        i
    }
}

/// The smallest indentation among the non-blank lines from `i` on.
pub open spec fn min_indent(lines: Seq<Seq<char>>, i: int) -> Option<int>
    decreases lines.len() - i,
{
    if !(0 <= i && i < lines.len()) {
        None
    } else {
        let rest = min_indent(lines, i + 1);
        if blank_line(lines[i]) {
            rest
        } else {
            let cur = lead_spaces(lines[i], 0);
            match rest {
                None => Some(cur),
                Some(m) => Some(
                    if cur <= m {
                        cur
                    } else {
                        m
                    },
                ),
            }
        }
    }
}

fn min_indent_exec(lines: &Vec<Vec<char>>, i: usize) -> (r: Option<usize>)
    requires
        i <= lines@.len(),
    ensures
        match r {
            Some(m) => min_indent(lines_view(lines@), i as int) == Some(m as int),
            None => min_indent(lines_view(lines@), i as int) is None,
        },
    decreases lines@.len() - i,
{
    if i >= lines.len() {
        return None;
    }
    let rest = min_indent_exec(lines, i + 1);
    if blank_exec(&lines[i]) {
        rest
    } else {
        let cur = lead_spaces_exec(&lines[i], 0);
        match rest {
            None => Some(cur),
            Some(m) => Some(
                if cur <= m {
                    cur
                } else {
                    m
                },
            ),
        }
    }
}

/// One line with the common indentation removed: a deep-enough non-blank
/// line loses `m` characters, any other line loses all leading spaces.
pub open spec fn unindent_line(l: Seq<char>, m: int) -> Seq<char> {
    if l.len() > m && !blank_line(l) {
        l.skip(m)
    } else {
        l.skip(lead_spaces(l, 0))
    }
}

/// The unindented lines from `i` on, joined with `\n`.
pub open spec fn join_lines(lines: Seq<Seq<char>>, m: int, i: int) -> Seq<char>
    decreases lines.len() - i,
{
    if !(0 <= i && i < lines.len()) {
        Seq::empty()
    } else if i == lines.len() - 1 {
        unindent_line(lines[i], m)
    } else {
        unindent_line(lines[i], m) + seq!['\n'] + join_lines(lines, m, i + 1)
    }
}

fn unindent_line_exec(l: &Vec<char>, m: usize) -> (r: Vec<char>)
    ensures
        r@ == unindent_line(l@, m as int),
{
    if l.len() > m && !blank_exec(l) {
        let t = copy_range(l, m, l.len());
        proof {
            assert(t@ =~= l@.skip(m as int));
        }
        t
    } else {
        let k = lead_spaces_exec(l, 0);
        let t = copy_range(l, k, l.len());
        proof {
            assert(t@ =~= l@.skip(lead_spaces(l@, 0)));
        }
        t
    }
}

/// The whole text after splitting into lines: empty input stays empty, a
/// text with no common indentation is returned unchanged, otherwise the
/// minimal indentation of the non-blank lines is removed from each line.
pub open spec fn spec_unindent(s: Seq<char>) -> Seq<char> {
    let lines = spec_lines(s, 0);
    if lines.len() == 0 {
        Seq::empty()
    } else {
        let m = match min_indent(lines, 0) {
            None => 0,
            Some(m) => m,
        };
        if m == 0 {
            s
        } else {
            join_lines(lines, m, 0)
        }
    }
}

/// Removes the common indentation of a markdown block.
pub fn unindent(input: &str) -> (r: String)
    ensures
        r@ == spec_unindent(input@),
{
    let s = to_chars(input);
    let lines = split_lines(&s);
    if lines.len() == 0 {
        return String::new();
    }
    let m: usize = match min_indent_exec(&lines, 0) {
        None => 0,
        Some(m) => m,
    };
    if m == 0 {
        return from_chars(&s);
    }
    let nl: Vec<char> = to_chars("\n");
    proof {
        reveal_strlit("\n");
        assert(nl@ =~= seq!['\n']);
    }
    let mut out: Vec<char> = Vec::new();
    let mut i: usize = 0;
    while i < lines.len()
        invariant
            i <= lines@.len(),
            lines@.len() > 0,
            nl@ == seq!['\n'],
            join_lines(lines_view(lines@), m as int, 0) =~= out@ + join_lines(
                lines_view(lines@),
                m as int,
                i as int,
            ),
        decreases lines@.len() - i,
    {
        let piece = unindent_line_exec(&lines[i], m);
        push_all(&mut out, &piece);
        if i + 1 < lines.len() {
            push_all(&mut out, &nl);
        }
        proof {
            assert(join_lines(lines_view(lines@), m as int, 0) =~= out@ + join_lines(
                lines_view(lines@),
                m as int,
                i + 1,
            ));
        }
        i += 1;
    }
    from_chars(&out)
}

} // verus!
