//! The tag scanner: finds component references (self-closing and
//! wrapping), template references, markdown blocks and math spans in a
//! text buffer.  Each tag kind is a small named grammar; quoted attribute
//! values end at the first matching quote on the same line, and matches
//! touching an HTML comment are excluded by a textual lookaround on the
//! literal comment markers, not by a real comment parser.

use vstd::prelude::*;
use crate::text::{contains_at, match_at, spec_find, to_chars};
use crate::utils::is_quote;

verus! {

/// An upper-case ASCII letter: the first character of a component name
/// and of every namespace segment.
pub open spec fn is_upper(c: char) -> bool {
    65 <= c as u32 && c as u32 <= 90
}

/// A character allowed inside a name segment.
pub open spec fn is_name_char(c: char) -> bool {
    (65 <= c as u32 && c as u32 <= 90) || (97 <= c as u32 && c as u32 <= 122) || c as u32 == 95
}

/// A character allowed in an attribute key inside a tag.
pub open spec fn is_key_char(c: char) -> bool {
    (65 <= c as u32 && c as u32 <= 90) || (97 <= c as u32 && c as u32 <= 122)
}

/// A whitespace character inside a tag.
pub open spec fn is_tag_space(c: char) -> bool {
    c as u32 == 32 || c as u32 == 9 || c as u32 == 10 || c as u32 == 13 || c as u32 == 11
        || c as u32 == 12
}

fn upper_char(c: char) -> (b: bool)
    ensures
        b == is_upper(c),
{
    let u = c as u32;
    65 <= u && u <= 90
}

fn name_char(c: char) -> (b: bool)
    ensures
        b == is_name_char(c),
{
    let u = c as u32;
    (65 <= u && u <= 90) || (97 <= u && u <= 122) || u == 95
}

fn key_char(c: char) -> (b: bool)
    ensures
        b == is_key_char(c),
{
    let u = c as u32;
    (65 <= u && u <= 90) || (97 <= u && u <= 122)
}

fn tag_space_char(c: char) -> (b: bool)
    ensures
        b == is_tag_space(c),
{
    let u = c as u32;
    u == 32 || u == 9 || u == 10 || u == 13 || u == 11 || u == 12
}

fn quote_char(c: char) -> (b: bool)
    ensures
        b == is_quote(c),
{
    c == '\'' || c == '"'
}

/// End of the maximal run of name characters starting at `i`.
pub open spec fn name_run_end(s: Seq<char>, i: int) -> int
    decreases s.len() - i,
{
    if 0 <= i && i < s.len() && is_name_char(s[i]) {
        name_run_end(s, i + 1)
    } else {
        i
    }
}

fn name_run_end_exec(s: &Vec<char>, i: usize) -> (r: usize)
    requires
        i <= s@.len(),
    ensures
        r == name_run_end(s@, i as int),
        i <= r <= s@.len(),
    decreases s@.len() - i,
{
    if i < s.len() && name_char(s[i]) {
        name_run_end_exec(s, i + 1)
    } else {
        i
    }
}

/// End of the maximal run of whitespace starting at `i`.
pub open spec fn space_run_end(s: Seq<char>, i: int) -> int
    decreases s.len() - i,
{
    if 0 <= i && i < s.len() && is_tag_space(s[i]) {
        space_run_end(s, i + 1)
    } else {
        i
    }
}

fn space_run_end_exec(s: &Vec<char>, i: usize) -> (r: usize)
    requires
        i <= s@.len(),
    ensures
        r == space_run_end(s@, i as int),
        i <= r <= s@.len(),
    decreases s@.len() - i,
{
    if i < s.len() && tag_space_char(s[i]) {
        space_run_end_exec(s, i + 1)
    } else {
        i
    }
}

/// End of the maximal run of key characters starting at `i`.
pub open spec fn key_run_end(s: Seq<char>, i: int) -> int
    decreases s.len() - i,
{
    if 0 <= i && i < s.len() && is_key_char(s[i]) {
        key_run_end(s, i + 1)
    } else {
        i
    }
}

fn key_run_end_exec(s: &Vec<char>, i: usize) -> (r: usize)
    requires
        i <= s@.len(),
    ensures
        r == key_run_end(s@, i as int),
        i <= r <= s@.len(),
    decreases s@.len() - i,
{
    if i < s.len() && key_char(s[i]) {
        key_run_end_exec(s, i + 1)
    } else {
        i
    }
}

/// First index `>= j` holding quote `q` on the same line; a tag's quoted
/// value may not span lines.
pub open spec fn tag_close_quote(s: Seq<char>, q: char, j: int) -> Option<int>
    decreases s.len() - j,
{
    if !(0 <= j && j < s.len()) {
        None
    } else if s[j] == q {
        Some(j)
    } else if s[j] == '\n' {
        None
    } else {
        tag_close_quote(s, q, j + 1)
    }
}

fn tag_close_quote_exec(s: &Vec<char>, q: char, j: usize) -> (r: Option<usize>)
    ensures
        match r {
            Some(c) => tag_close_quote(s@, q, j as int) == Some(c as int) && j <= c < s@.len(),
            None => tag_close_quote(s@, q, j as int) is None,
        },
    decreases s@.len() - j,
{
    if j >= s.len() {
        None
    } else if s[j] == q {
        Some(j)
    } else if s[j] == '\n' {
        None
    } else {
        tag_close_quote_exec(s, q, j + 1)
    }
}

/// End of a capitalized, optionally colon-segmented name starting at `i`.
pub open spec fn tag_name_end(s: Seq<char>, i: int) -> Option<int>
    decreases s.len() - i,
{
    if 0 <= i && i < s.len() && is_upper(s[i]) {
        let k = name_run_end(s, i + 1);
        if i <= k && k + 1 < s.len() && s[k] == ':' && is_upper(s[k + 1]) {
            tag_name_end(s, k + 1)
        } else {
            Some(k)
        }
    } else {
        None
    }
}

fn tag_name_end_exec(s: &Vec<char>, i: usize) -> (r: Option<usize>)
    requires
        i <= s@.len(),
    ensures
        match r {
            Some(ne) => tag_name_end(s@, i as int) == Some(ne as int) && i < ne <= s@.len(),
            None => tag_name_end(s@, i as int) is None,
        },
    decreases s@.len() - i,
{
    let n = s.len();
    if i < n && upper_char(s[i]) {
        let k = name_run_end_exec(s, i + 1);
        if k < n && s[k] == ':' && k + 1 < n && upper_char(s[k + 1]) {
            tag_name_end_exec(s, k + 1)
        } else {
            Some(k)
        }
    } else {
        None
    }
}

/// End position after consuming attribute groups from `i`: each group is
/// whitespace, a key, `=`, and a quoted same-line value.
pub open spec fn tag_attrs_end(s: Seq<char>, i: int) -> int
    decreases s.len() - i,
{
    let sp = space_run_end(s, i);
    if sp > i && sp < s.len() && is_key_char(s[sp]) {
        let k = key_run_end(s, sp);
        if k + 1 < s.len() && s[k] == '=' && is_quote(s[k + 1]) {
            match tag_close_quote(s, s[k + 1], k + 2) {
                Some(c) => if i < c + 1 && c + 1 <= s.len() {
                    tag_attrs_end(s, c + 1)
                } else {
                    i
                },
                None => i,
            }
        } else {
            i
        }
    } else {
        i
    }
}

fn tag_attrs_end_exec(s: &Vec<char>, i: usize) -> (r: usize)
    requires
        i <= s@.len(),
    ensures
        r == tag_attrs_end(s@, i as int),
        i <= r <= s@.len(),
    decreases s@.len() - i,
{
    let sp = space_run_end_exec(s, i);
    if sp > i && sp < s.len() && key_char(s[sp]) {
        let k = key_run_end_exec(s, sp);
        if k < s.len() && s[k] == '=' && k + 1 < s.len() && quote_char(s[k + 1]) {
            match tag_close_quote_exec(s, s[k + 1], k + 2) {
                Some(c) => tag_attrs_end_exec(s, c + 1),
                None => i,
            }
        } else {
            i
        }
    } else {
        i
    }
}

/// End of a component tag starting at `i`: `<`, a name, attribute
/// groups, optional whitespace, then `/>` for the self-closing form or
/// `>` for the wrapping form.  The name ends at `tag_name_end(s, i+1)`.
pub open spec fn tag_parse_end(s: Seq<char>, i: int, self_closing: bool) -> Option<int> {
    if !(0 <= i && i < s.len()) || s[i] != '<' {
        None
    } else {
        match tag_name_end(s, i + 1) {
            None => None,
            Some(ne) => {
                let ae = tag_attrs_end(s, ne);
                let sp = space_run_end(s, ae);
                if self_closing {
                    if sp + 1 < s.len() && s[sp] == '/' && s[sp + 1] == '>' {
                        Some(sp + 2)
                    } else {
                        None
                    }
                } else {
                    if sp < s.len() && s[sp] == '>' {
                        Some(sp + 1)
                    } else {
                        None
                    }
                }
            },
        }
    }
}

/// A position immediately preceded by the literal `<!--`.
pub open spec fn excluded_start(s: Seq<char>, i: int) -> bool {
    i >= 4 && s.subrange(i - 4, i) == seq!['<', '!', '-', '-']
}

/// The literal `-->` occurs at or after `j` with no newline before it.
pub open spec fn comment_close_ahead(s: Seq<char>, j: int) -> bool {
    exists|m: int|
        #![trigger s.subrange(m, m + 3)]
        j <= m && m + 3 <= s.len() && s.subrange(m, m + 3) == seq!['-', '-', '>'] && (forall|k: int|
            j <= k < m ==> #[trigger] s[k] != '\n')
}

fn excluded_start_exec(s: &Vec<char>, i: usize) -> (b: bool)
    requires
        i <= s@.len(),
    ensures
        b == excluded_start(s@, i as int),
{
    if i < 4 {
        proof {
            assert(!excluded_start(s@, i as int));
        }
        return false;
    }
    let open: Vec<char> = to_chars("<!--");
    proof {
        reveal_strlit("<!--");
        assert(open@ =~= seq!['<', '!', '-', '-']);
    }
    let hit = match_at(s, &open, i - 4);
    proof {
        if hit {
            assert(s@.subrange(i - 4, i as int) =~= s@.subrange(i - 4, i - 4 + open@.len() as int));
        } else {
            if excluded_start(s@, i as int) {
                assert(s@.subrange(i - 4, i - 4 + open@.len() as int) =~= s@.subrange(
                    i - 4,
                    i as int,
                ));
            }
        }
    }
    hit
}

fn comment_close_ahead_exec(s: &Vec<char>, j: usize) -> (b: bool)
    requires
        j <= s@.len(),
    ensures
        b == comment_close_ahead(s@, j as int),
{
    let close: Vec<char> = to_chars("-->");
    proof {
        reveal_strlit("-->");
        assert(close@ =~= seq!['-', '-', '>']);
    }
    let n = s.len();
    let mut m: usize = j;
    loop
        invariant
            n == s@.len(),
            j <= m <= s@.len(),
            close@ == seq!['-', '-', '>'],
            forall|k: int| j <= k < m ==> s@[k] != '\n',
            forall|p: int|
                j <= p < m ==> !(p + 3 <= s@.len() && #[trigger] s@.subrange(p, p + 3) == seq![
                    '-',
                    '-',
                    '>',
                ]),
        decreases s@.len() - m,
    {
        if n >= 3 && m <= n - 3 {
            let hit = match_at(s, &close, m);
            if hit {
                proof {
                    assert(s@.subrange(m as int, m + 3) == close@);
                }
                return true;
            }
        }
        if m >= s.len() || s[m] == '\n' {
            proof {
                if comment_close_ahead(s@, j as int) {
                    let p = choose|p: int|
                        #![trigger s@.subrange(p, p + 3)]
                        j <= p && p + 3 <= s@.len() && s@.subrange(p, p + 3) == seq![
                            '-',
                            '-',
                            '>',
                        ] && (forall|k: int| j <= k < p ==> #[trigger] s@[k] != '\n');
                    if p < m {
                        assert(false);
                    } else {
                        assert(m < s@.len() ==> s@[m as int] == '\n');
                        assert(p + 3 <= s@.len());
                        assert(m < s@.len());
                        assert(s@[m as int] != '\n');
                        assert(false);
                    }
                }
            }
            return false;
        }
        m += 1;
    }
}

/// A component tag match at `i`, with the comment lookarounds applied.
pub open spec fn tag_match(s: Seq<char>, i: int, self_closing: bool) -> Option<int> {
    match tag_parse_end(s, i, self_closing) {
        None => None,
        Some(e) => if !excluded_start(s, i) && !comment_close_ahead(s, e) {
            Some(e)
        } else {
            None
        },
    }
}

/// No component tag of the given form occurs anywhere in `s`.
pub open spec fn no_tag(s: Seq<char>, self_closing: bool) -> bool {
    forall|i: int| tag_match(s, i, self_closing) is None
}

/// One component tag occurrence: its span and the span of its name.
pub struct TagMatch {
    pub start: usize,
    pub name_end: usize,
    pub end: usize,
}

fn tag_match_exec(s: &Vec<char>, i: usize, self_closing: bool) -> (r: Option<TagMatch>)
    requires
        i <= s@.len(),
    ensures
        match r {
            Some(m) => m.start == i && tag_match(s@, i as int, self_closing) == Some(m.end as int)
                && tag_name_end(s@, i + 1) == Some(m.name_end as int) && i + 1 < m.name_end
                <= s@.len() && i < m.end <= s@.len() && m.name_end <= m.end,
            None => tag_match(s@, i as int, self_closing) is None,
        },
{
    let n = s.len();
    if i >= n || s[i] != '<' {
        return None;
    }
    match tag_name_end_exec(s, i + 1) {
        None => None,
        Some(ne) => {
            let ae = tag_attrs_end_exec(s, ne);
            let sp = space_run_end_exec(s, ae);
            let end: usize = if self_closing {
                if sp < n && s[sp] == '/' && sp + 1 < n && s[sp + 1] == '>' {
                    sp + 2
                } else {
                    return None;
                }
            } else {
                if sp < n && s[sp] == '>' {
                    sp + 1
                } else {
                    return None;
                }
            };
            if excluded_start_exec(s, i) {
                return None;
            }
            if comment_close_ahead_exec(s, end) {
                return None;
            }
            if ne <= i + 1 {
                proof {
                    assert(false);
                }
            }
            Some(TagMatch { start: i, name_end: ne, end })
        },
    }
}

/// Finds the leftmost component tag at or after `from`.
pub fn find_next_tag(s: &Vec<char>, from: usize, self_closing: bool) -> (r: Option<TagMatch>)
    requires
        from <= s@.len(),
    ensures
        match r {
            Some(m) => from <= m.start && tag_match(s@, m.start as int, self_closing) == Some(
                m.end as int,
            ) && tag_name_end(s@, m.start + 1) == Some(m.name_end as int) && m.start + 1
                < m.name_end <= s@.len() && m.start < m.end <= s@.len() && m.name_end <= m.end && (
            forall|j: int| from <= j < m.start ==> tag_match(s@, j, self_closing) is None),
            None => forall|j: int| from <= j ==> tag_match(s@, j, self_closing) is None,
        },
{
    let mut i: usize = from;
    while i < s.len()
        invariant
            from <= i <= s@.len(),
            forall|j: int| from <= j < i ==> tag_match(s@, j, self_closing) is None,
        decreases s@.len() - i,
    {
        match tag_match_exec(s, i, self_closing) {
            Some(m) => {
                return Some(m);
            },
            None => {
                i += 1;
            },
        }
    }
    proof {
        assert forall|j: int| from <= j implies tag_match(s@, j, self_closing) is None by {
            if j >= s@.len() {
                assert(tag_parse_end(s@, j, self_closing) is None);
            }
        }
    }
    None
}

/// The opening literal of a template reference.
pub open spec fn tpl_open() -> Seq<char> {
    "<-Template{"@
}

/// A template reference parse at `i`: the opening literal, a name, `}`,
/// optional whitespace, `/>`.  Yields the name's end and the match end.
pub open spec fn template_parse(s: Seq<char>, i: int) -> Option<(int, int)> {
    if contains_at(s, i, tpl_open()) {
        let ns = i + tpl_open().len();
        match tag_name_end(s, ns) {
            None => None,
            Some(ne) => if ne < s.len() && s[ne] == '}' {
                let sp = space_run_end(s, ne + 1);
                if sp < s.len() && s[sp] == '/' && sp + 1 < s.len() && s[sp + 1] == '>' {
                    Some((ne, sp + 2))
                } else {
                    None
                }
            } else {
                None
            },
        }
    } else {
        None
    }
}

/// A template reference match at `i`, with the comment lookarounds.
pub open spec fn template_match(s: Seq<char>, i: int) -> Option<(int, int)> {
    match template_parse(s, i) {
        None => None,
        Some((ne, e)) => if !excluded_start(s, i) && !comment_close_ahead(s, e) {
            Some((ne, e))
        } else {
            None
        },
    }
}

/// No template reference occurs anywhere in `s`.
pub open spec fn no_template(s: Seq<char>) -> bool {
    forall|i: int| template_match(s, i) is None
}

/// One template reference occurrence: its span and its name's span.
pub struct TemplateMatch {
    pub start: usize,
    pub name_start: usize,
    pub name_end: usize,
    pub end: usize,
}

fn template_match_exec(s: &Vec<char>, i: usize, open: &Vec<char>) -> (r: Option<TemplateMatch>)
    requires
        i <= s@.len(),
        open@ == tpl_open(),
    ensures
        match r {
            Some(m) => m.start == i && template_match(s@, i as int) == Some(
                (m.name_end as int, m.end as int),
            ) && m.name_start == i + tpl_open().len() && i <= m.name_start < m.name_end <= m.end
                <= s@.len(),
            None => template_match(s@, i as int) is None,
        },
{
    let n = s.len();
    if open.len() > n || i > n - open.len() {
        return None;
    }
    if !match_at(s, open, i) {
        return None;
    }
    let ns = i + open.len();
    match tag_name_end_exec(s, ns) {
        None => None,
        Some(ne) => {
            if ne < n && s[ne] == '}' {
                let sp = space_run_end_exec(s, ne + 1);
                if sp < n && s[sp] == '/' && sp + 1 < n && s[sp + 1] == '>' {
                    if excluded_start_exec(s, i) {
                        return None;
                    }
                    if comment_close_ahead_exec(s, sp + 2) {
                        return None;
                    }
                    Some(TemplateMatch { start: i, name_start: ns, name_end: ne, end: sp + 2 })
                } else {
                    None
                }
            } else {
                None
            }
        },
    }
}

/// Finds the leftmost template reference at or after `from`.
pub fn find_next_template(s: &Vec<char>, from: usize) -> (r: Option<TemplateMatch>)
    requires
        from <= s@.len(),
    ensures
        match r {
            Some(m) => from <= m.start && template_match(s@, m.start as int) == Some(
                (m.name_end as int, m.end as int),
            ) && m.name_start == m.start + tpl_open().len() && m.start <= m.name_start < m.name_end
                <= m.end <= s@.len() && (forall|j: int|
                from <= j < m.start ==> template_match(s@, j) is None),
            None => forall|j: int| from <= j ==> template_match(s@, j) is None,
        },
{
    let open = to_chars("<-Template{");
    let mut i: usize = from;
    while i < s.len()
        invariant
            from <= i <= s@.len(),
            open@ == tpl_open(),
            forall|j: int| from <= j < i ==> template_match(s@, j) is None,
        decreases s@.len() - i,
    {
        match template_match_exec(s, i, &open) {
            Some(m) => {
                return Some(m);
            },
            None => {
                i += 1;
            },
        }
    }
    proof {
        reveal_strlit("<-Template{");
        assert forall|j: int| from <= j implies template_match(s@, j) is None by {
            if j >= s@.len() {
                assert(tpl_open().len() > 0);
                assert(!contains_at(s@, j, tpl_open()));
            }
        }
    }
    None
}

/// The opening and closing literals of a markdown block.
pub open spec fn md_open() -> Seq<char> {
    "<markdown>"@
}

pub open spec fn md_close() -> Seq<char> {
    "</markdown>"@
}

/// A markdown block parse at `i`: the opening marker, at least one
/// character of content, the nearest closing marker.  Yields the end of
/// the content and the end of the whole block.
pub open spec fn markdown_parse(s: Seq<char>, i: int) -> Option<(int, int)> {
    if contains_at(s, i, md_open()) {
        match spec_find(s, md_close(), i + md_open().len() + 1) {
            Some(c) => Some((c, c + md_close().len())),
            None => None,
        }
    } else {
        None
    }
}

/// A markdown block match at `i`: the block must not open right after a
/// `<!--` marker nor close right before a `-->` marker.
pub open spec fn markdown_match(s: Seq<char>, i: int) -> Option<(int, int)> {
    match markdown_parse(s, i) {
        None => None,
        Some((c, e)) => if !excluded_start(s, i) && !contains_at(s, e, seq!['-', '-', '>']) {
            Some((c, e))
        } else {
            None
        },
    }
}

/// One markdown block occurrence: the block's span and its content span.
pub struct MarkdownMatch {
    pub start: usize,
    pub content_start: usize,
    pub content_end: usize,
    pub end: usize,
}

fn markdown_match_exec(
    s: &Vec<char>,
    i: usize,
    open: &Vec<char>,
    close: &Vec<char>,
    arrow: &Vec<char>,
) -> (r: Option<MarkdownMatch>)
    requires
        i <= s@.len(),
        open@ == md_open(),
        close@ == md_close(),
        arrow@ == seq!['-', '-', '>'],
    ensures
        match r {
            Some(m) => m.start == i && markdown_match(s@, i as int) == Some(
                (m.content_end as int, m.end as int),
            ) && m.content_start == i + md_open().len() && i <= m.content_start < m.content_end
                <= m.end <= s@.len(),
            None => markdown_match(s@, i as int) is None,
        },
{
    let n = s.len();
    if open.len() > n || i > n - open.len() {
        return None;
    }
    if !match_at(s, open, i) {
        return None;
    }
    let cs = i + open.len();
    if cs >= n {
        proof {
            reveal_strlit("</markdown>");
            assert(spec_find(s@, md_close(), cs + 1) is None);
        }
        return None;
    }
    match crate::text::find_from(s, close, cs + 1) {
        None => None,
        Some(c) => {
            proof {
                crate::text::lemma_spec_find(s@, close@, cs + 1);
            }
            let e = c + close.len();
            if excluded_start_exec(s, i) {
                return None;
            }
            let after = if arrow.len() <= n && e <= n - arrow.len() {
                match_at(s, arrow, e)
            } else {
                false
            };
            if after {
                proof {
                    assert(s@.subrange(e as int, e + 3) == arrow@);
                }
                return None;
            }
            proof {
                if contains_at(s@, e as int, seq!['-', '-', '>']) {
                    assert(s@.subrange(e as int, e + 3) =~= s@.subrange(
                        e as int,
                        e + arrow@.len() as int,
                    ));
                }
            }
            Some(MarkdownMatch { start: i, content_start: cs, content_end: c, end: e })
        },
    }
}

/// Finds the leftmost markdown block at or after `from`.
pub fn find_next_markdown(s: &Vec<char>, from: usize) -> (r: Option<MarkdownMatch>)
    requires
        from <= s@.len(),
    ensures
        match r {
            Some(m) => from <= m.start && markdown_match(s@, m.start as int) == Some(
                (m.content_end as int, m.end as int),
            ) && m.content_start == m.start + md_open().len() && m.start <= m.content_start
                < m.content_end <= m.end <= s@.len() && (forall|j: int|
                from <= j < m.start ==> markdown_match(s@, j) is None),
            None => forall|j: int| from <= j ==> markdown_match(s@, j) is None,
        },
{
    let open = to_chars("<markdown>");
    let close = to_chars("</markdown>");
    let arrow = to_chars("-->");
    proof {
        reveal_strlit("-->");
        assert(arrow@ =~= seq!['-', '-', '>']);
    }
    let mut i: usize = from;
    while i < s.len()
        invariant
            from <= i <= s@.len(),
            open@ == md_open(),
            close@ == md_close(),
            arrow@ == seq!['-', '-', '>'],
            forall|j: int| from <= j < i ==> markdown_match(s@, j) is None,
        decreases s@.len() - i,
    {
        match markdown_match_exec(s, i, &open, &close, &arrow) {
            Some(m) => {
                return Some(m);
            },
            None => {
                i += 1;
            },
        }
    }
    proof {
        reveal_strlit("<markdown>");
        assert forall|j: int| from <= j implies markdown_match(s@, j) is None by {
            if j >= s@.len() {
                assert(md_open().len() > 0);
                assert(!contains_at(s@, j, md_open()));
            }
        }
    }
    None
}

/// The literals delimiting a rendered math span.
pub open spec fn math_open() -> Seq<char> {
    "<span data-math-style=\""@
}

pub open spec fn inline_mark() -> Seq<char> {
    "inline\">"@
}

pub open spec fn display_mark() -> Seq<char> {
    "display\">"@
}

pub open spec fn span_close() -> Seq<char> {
    "</span>"@
}

/// A math span parse at `i`: the opening literal, an `inline` or
/// `display` style, at least one character of content, the nearest
/// `</span>`.  Yields the display flag, the content span's bounds and
/// the match end.
pub open spec fn math_parse(s: Seq<char>, i: int) -> Option<(bool, int, int)> {
    if contains_at(s, i, math_open()) {
        let p = i + math_open().len();
        let display = contains_at(s, p, display_mark());
        let mark_len = if display {
            display_mark().len() as int
        } else {
            inline_mark().len() as int
        };
        if display || contains_at(s, p, inline_mark()) {
            match spec_find(s, span_close(), p + mark_len + 1) {
                Some(c) => Some((display, p + mark_len, c)),
                None => None,
            }
        } else {
            None
        }
    } else {
        None
    }
}

/// No math span occurs anywhere in `s`.
pub open spec fn no_math(s: Seq<char>) -> bool {
    forall|i: int| math_parse(s, i) is None
}

/// One math span occurrence.
pub struct MathMatch {
    pub start: usize,
    pub display: bool,
    pub content_start: usize,
    pub content_end: usize,
    pub end: usize,
}

fn math_match_exec(
    s: &Vec<char>,
    i: usize,
    open: &Vec<char>,
    inline_m: &Vec<char>,
    display_m: &Vec<char>,
    close: &Vec<char>,
) -> (r: Option<MathMatch>)
    requires
        i <= s@.len(),
        open@ == math_open(),
        inline_m@ == inline_mark(),
        display_m@ == display_mark(),
        close@ == span_close(),
    ensures
        match r {
            Some(m) => m.start == i && math_parse(s@, i as int) == Some(
                (m.display, m.content_start as int, m.content_end as int),
            ) && m.end == m.content_end + span_close().len() && i <= m.content_start
                <= m.content_end < m.end <= s@.len(),
            None => math_parse(s@, i as int) is None,
        },
{
    let n = s.len();
    if open.len() > n || i > n - open.len() {
        return None;
    }
    if !match_at(s, open, i) {
        return None;
    }
    let p = i + open.len();
    let display = if display_m.len() <= n && p <= n - display_m.len() {
        match_at(s, display_m, p)
    } else {
        false
    };
    let inline_hit = if !display {
        if inline_m.len() <= n && p <= n - inline_m.len() {
            match_at(s, inline_m, p)
        } else {
            false
        }
    } else {
        false
    };
    if !display && !inline_hit {
        return None;
    }
    let mark_len = if display {
        display_m.len()
    } else {
        inline_m.len()
    };
    if p + mark_len >= n {
        proof {
            assert(spec_find(s@, span_close(), p + mark_len + 1) is None);
        }
        return None;
    }
    match crate::text::find_from(s, close, p + mark_len + 1) {
        None => None,
        Some(c) => {
            proof {
                crate::text::lemma_spec_find(s@, close@, p + mark_len + 1);
                reveal_strlit("</span>");
                assert(span_close().len() > 0);
            }
            Some(
                MathMatch {
                    start: i,
                    display,
                    content_start: p + mark_len,
                    content_end: c,
                    end: c + close.len(),
                },
            )
        },
    }
}

/// Finds the leftmost math span at or after `from`.
pub fn find_next_math(s: &Vec<char>, from: usize) -> (r: Option<MathMatch>)
    requires
        from <= s@.len(),
    ensures
        match r {
            Some(m) => from <= m.start && math_parse(s@, m.start as int) == Some(
                (m.display, m.content_start as int, m.content_end as int),
            ) && m.end == m.content_end + span_close().len() && m.start <= m.content_start
                <= m.content_end < m.end <= s@.len() && (forall|j: int|
                from <= j < m.start ==> math_parse(s@, j) is None),
            None => forall|j: int| from <= j ==> math_parse(s@, j) is None,
        },
{
    let open = to_chars("<span data-math-style=\"");
    let inline_m = to_chars("inline\">");
    let display_m = to_chars("display\">");
    let close = to_chars("</span>");
    let mut i: usize = from;
    while i < s.len()
        invariant
            from <= i <= s@.len(),
            open@ == math_open(),
            inline_m@ == inline_mark(),
            display_m@ == display_mark(),
            close@ == span_close(),
            forall|j: int| from <= j < i ==> math_parse(s@, j) is None,
        decreases s@.len() - i,
    {
        match math_match_exec(s, i, &open, &inline_m, &display_m, &close) {
            Some(m) => {
                return Some(m);
            },
            None => {
                i += 1;
            },
        }
    }
    proof {
        reveal_strlit("<span data-math-style=\"");
        assert forall|j: int| from <= j implies math_parse(s@, j) is None by {
            if j >= s@.len() {
                assert(math_open().len() > 0);
                assert(!contains_at(s@, j, math_open()));
            }
        }
    }
    None
}

} // verus!
