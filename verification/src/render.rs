//! The rendering collaborators the engine delegates to: markdown-to-HTML
//! conversion, math rendering and HTML minification.  Each outside call
//! stands behind a trusted wrapper; the scanning and splicing around the
//! calls is verified.

use vstd::prelude::*;
use crate::model::{
    lemma_first_markdown_none, lemma_first_markdown_some, lemma_first_math_none,
    lemma_first_math_some, sp_markdown, sp_math,
};
use crate::scan::{
    find_next_markdown, find_next_math, markdown_match, math_parse, no_math, md_close,
};
use crate::text::{contains_seq, copy_range, from_chars, push_all, to_chars};
use crate::utils::unindent;

verus! {

/// What comrak renders for a markdown text, under this build's fixed
/// option set: a function of the input text alone.
pub uninterp spec fn markdown_html_of(s: Seq<char>) -> Seq<char>;

/// Relies on comrak::markdown_to_html_with_plugins with a fixed option
/// set and the syntect CSS adapter: the result depends on the input text
/// alone.
#[verifier::external_body]
fn comrak_render(s: &str) -> (r: String)
    ensures
        r@ == markdown_html_of(s@),
{
    let mut options = comrak::Options::default();
    options.extension.math_code = true;
    options.extension.math_dollars = true;
    options.extension.superscript = true;
    options.extension.footnotes = true;
    options.extension.strikethrough = true;
    options.extension.autolink = true;
    options.extension.table = true;
    options.extension.tasklist = true;
    options.render.unsafe_ = true;
    let adapter = comrak::plugins::syntect::SyntectAdapterBuilder::new().css().build();
    let mut plugins = comrak::Plugins::default();
    plugins.render.codefence_syntax_highlighter = Some(&adapter);
    comrak::markdown_to_html_with_plugins(s, &options, &plugins)
}

/// What KaTeX renders for a LaTeX source in the given mode: a function
/// of the source and the mode alone.
pub uninterp spec fn katex_html_of(latex: Seq<char>, display: bool) -> Seq<char>;

/// Whether KaTeX accepts a LaTeX source in the given mode: the bundled,
/// version-pinned renderer rejects a source deterministically, so this
/// too is a function of the source and the mode alone.
pub uninterp spec fn katex_ok(latex: Seq<char>, display: bool) -> bool;

/// Relies on katex::render_with_opts with HTML output and the given
/// display mode: success and result depend on the source and the mode
/// alone; invalid LaTeX yields an error, returned as its message.
#[verifier::external_body]
fn katex_render(latex: &str, display: bool) -> (r: Result<String, String>)
    ensures
        r is Ok <==> katex_ok(latex@, display),
        r matches Ok(h) ==> h@ == katex_html_of(latex@, display),
{
    let opts = match katex::Opts::builder().output_type(
        katex::OutputType::Html,
    ).display_mode(display).build() {
        Ok(o) => o,
        Err(e) => {
            return Err(format!("Failed to build KaTeX options: {:?}", e));
        },
    };
    katex::render_with_opts(latex, &opts).map_err(|e| format!("{}", e))
}

/// What minify-html produces for a text under the default,
/// specification-compliant configuration: a function of the text alone.
pub uninterp spec fn minified_of(s: Seq<char>) -> Seq<u8>;

/// Relies on minify_html::minify with the default configuration, which
/// keeps all spec-compliance options off: the result depends on the
/// input alone.
#[verifier::external_body]
pub(crate) fn minify_text(s: &str) -> (r: Vec<u8>)
    ensures
        r@ == minified_of(s@),
{
    minify_html::minify(s.as_bytes(), &minify_html::Cfg::new())
}

/// Replaces every math span of a rendered block with its KaTeX HTML,
/// left to right.  A failing span aborts the whole pass, as the caller
/// falls back to the unrendered block.  The second component reports
/// whether any math was rendered.  The result is exactly the model's
/// math pass.
pub fn render_math_spans(html: &Vec<char>) -> (r: Result<(Vec<char>, bool), String>)
    ensures
        (match r {
            Ok(p) => sp_math(html@, 0) == Some((p.0@, p.1)),
            Err(_) => sp_math(html@, 0) is None,
        }),
        r matches Ok(p) ==> (no_math(html@) ==> p.0@ == html@ && !p.1),
{
    let r = math_spans_rec(html, 0);
    proof {
        if r is Ok && no_math(html@) {
            lemma_first_math_none(html@, 0);
            assert(html@.subrange(0, html@.len() as int) =~= html@);
        }
    }
    r
}

fn math_spans_rec(html: &Vec<char>, pos: usize) -> (r: Result<(Vec<char>, bool), String>)
    requires
        pos <= html@.len(),
    ensures
        match r {
            Ok(p) => sp_math(html@, pos as int) == Some((p.0@, p.1)),
            Err(_) => sp_math(html@, pos as int) is None,
        },
    decreases html@.len() - pos,
{
    match find_next_math(html, pos) {
        None => {
            proof {
                lemma_first_math_none(html@, pos as int);
            }
            Ok((copy_range(html, pos, html.len()), false))
        },
        Some(m) => {
            proof {
                lemma_first_math_some(
                    html@,
                    pos as int,
                    m.start as int,
                    m.display,
                    m.content_start as int,
                    m.content_end as int,
                );
            }
            let latex = copy_range(html, m.content_start, m.content_end);
            match katex_render(from_chars(&latex).as_str(), m.display) {
                Err(e) => {
                    proof {
                        assert(sp_math(html@, pos as int) is None);
                    }
                    Err(e)
                },
                Ok(rendered) => {
                    match math_spans_rec(html, m.end) {
                        Err(e) => Err(e),
                        Ok((rest_text, _)) => {
                            let mut out = copy_range(html, pos, m.start);
                            push_all(&mut out, &to_chars(rendered.as_str()));
                            push_all(&mut out, &rest_text);
                            proof {
                                assert(out@ =~= html@.subrange(pos as int, m.start as int)
                                    + katex_html_of(
                                    html@.subrange(m.content_start as int, m.content_end as int),
                                    m.display,
                                ) + rest_text@);
                            }
                            Ok((out, true))
                        },
                    }
                },
            }
        },
    }
}

fn push_range_out(out: &mut Vec<char>, src: &Vec<char>, pos: usize)
    requires
        pos <= src@.len(),
    ensures
        final(out)@ == old(out)@ + src@.subrange(pos as int, src@.len() as int),
{
    crate::text::push_range(out, src, pos, src.len());
}

fn push_range_mid(out: &mut Vec<char>, src: &Vec<char>, a: usize, b: usize)
    requires
        a <= b <= src@.len(),
    ensures
        final(out)@ == old(out)@ + src@.subrange(a as int, b as int),
{
    crate::text::push_range(out, src, a, b);
}

/// Escapes a markdown source for embedding in an HTML attribute.
pub open spec fn spec_escape_attr(s: Seq<char>) -> Seq<char>
    decreases s.len(),
{
    if s.len() == 0 {
        Seq::empty()
    } else {
        let head = if s[0] == '"' {
            "&quot;"@
        } else if s[0] == '&' {
            "&amp;"@
        } else if s[0] == '<' {
            "&lt;"@
        } else if s[0] == '>' {
            "&gt;"@
        } else {
            seq![s[0]]
        };
        head + spec_escape_attr(s.drop_first())
    }
}

fn escape_attr(s: &Vec<char>) -> (r: Vec<char>)
    ensures
        r@ == spec_escape_attr(s@),
{
    let mut out: Vec<char> = Vec::new();
    let mut i: usize = 0;
    proof {
        assert(s@.skip(0) =~= s@);
    }
    while i < s.len()
        invariant
            i <= s@.len(),
            spec_escape_attr(s@) =~= out@ + spec_escape_attr(s@.skip(i as int)),
        decreases s@.len() - i,
    {
        let c = s[i];
        proof {
            assert(s@.skip(i as int)[0] == s@[i as int]);
            assert(s@.skip(i as int).drop_first() =~= s@.skip(i + 1));
        }
        if c == '"' {
            push_all(&mut out, &to_chars("&quot;"));
        } else if c == '&' {
            push_all(&mut out, &to_chars("&amp;"));
        } else if c == '<' {
            push_all(&mut out, &to_chars("&lt;"));
        } else if c == '>' {
            push_all(&mut out, &to_chars("&gt;"));
        } else {
            out.push(c);
        }
        i += 1;
    }
    proof {
        assert(out@ =~= spec_escape_attr(s@));
    }
    out
}

/// Whitespace trimmed from both ends of a markdown source.
pub open spec fn spec_trim(s: Seq<char>) -> Seq<char>
    decreases s.len(),
{
    if s.len() > 0 && is_trim_space(s[0]) {
        spec_trim(s.drop_first())
    } else if s.len() > 0 && is_trim_space(s.last()) {
        spec_trim(s.drop_last())
    } else {
        s
    }
}

/// A whitespace character for trimming, newline included.
pub open spec fn is_trim_space(c: char) -> bool {
    c == ' ' || c == '\t' || c == '\r' || c == '\n' || c as u32 == 11 || c as u32 == 12
}

pub(crate) fn trim_space_char(c: char) -> (b: bool)
    ensures
        b == is_trim_space(c),
{
    let u = c as u32;
    c == ' ' || c == '\t' || c == '\r' || c == '\n' || u == 11 || u == 12
}

fn trim_chars(s: Vec<char>) -> (r: Vec<char>)
    ensures
        r@ == spec_trim(s@),
    decreases s@.len(),
{
    if s.len() > 0 && trim_space_char(s[0]) {
        let t = copy_range(&s, 1, s.len());
        proof {
            assert(t@ =~= s@.drop_first());
        }
        trim_chars(t)
    } else if s.len() > 0 && trim_space_char(s[s.len() - 1]) {
        let t = copy_range(&s, 0, s.len() - 1);
        proof {
            assert(t@ =~= s@.drop_last());
        }
        trim_chars(t)
    } else {
        s
    }
}

/// Lifts every markdown block of the buffer to HTML: each block's
/// content is unindented, rendered by the markdown collaborator, its
/// math spans rendered (a math failure leaves the block's spans as they
/// are), and the result wrapped in a `div`; in development mode the
/// `div` carries the escaped source for live editing.  Text outside
/// blocks is kept; the result is exactly the model's markdown pass, so
/// a buffer without a block is returned unchanged.
pub fn render_markdown(input: String, dev: bool) -> (r: (String, bool))
    ensures
        (r.0@, r.1) == sp_markdown(input@, dev, 0),
        !contains_seq(input@, md_close()) ==> r.0@ == input@ && r.1 == false,
        (forall|i: int| markdown_match(input@, i) is None) ==> r.0@ == input@ && r.1 == false,
{
    let s = to_chars(input.as_str());
    let (out, math) = markdown_rec(&s, dev, 0);
    proof {
        if !contains_seq(input@, md_close()) {
            assert forall|i: int| markdown_match(s@, i) is None by {
                if markdown_match(s@, i) is Some {
                    crate::text::lemma_spec_find(
                        s@,
                        md_close(),
                        i + crate::scan::md_open().len() + 1,
                    );
                }
            }
        }
        if forall|i: int| markdown_match(s@, i) is None {
            lemma_first_markdown_none(s@, 0);
            assert(s@.subrange(0, s@.len() as int) =~= s@);
        }
    }
    (from_chars(&out), math)
}

fn markdown_rec(s: &Vec<char>, dev: bool, pos: usize) -> (r: (Vec<char>, bool))
    requires
        pos <= s@.len(),
    ensures
        (r.0@, r.1) == sp_markdown(s@, dev, pos as int),
    decreases s@.len() - pos,
{
    match find_next_markdown(s, pos) {
        None => {
            proof {
                lemma_first_markdown_none(s@, pos as int);
            }
            (copy_range(s, pos, s.len()), false)
        },
        Some(m) => {
            proof {
                lemma_first_markdown_some(
                    s@,
                    pos as int,
                    m.start as int,
                    m.content_end as int,
                    m.end as int,
                );
            }
            let content = copy_range(s, m.content_start, m.content_end);
            let unindented = unindent(from_chars(&content).as_str());
            let rendered = comrak_render(unindented.as_str());
            let rendered_chars = to_chars(rendered.as_str());
            let (final_html, had_math) = match render_math_spans(&rendered_chars) {
                Ok(p) => p,
                Err(_) => (rendered_chars, false),
            };
            let mut out = copy_range(s, pos, m.start);
            if dev {
                push_all(
                    &mut out,
                    &to_chars("<div style='display: contents;' data-markdown-source=\""),
                );
                let esc = escape_attr(&trim_chars(to_chars(unindented.as_str())));
                push_all(&mut out, &esc);
                push_all(&mut out, &to_chars("\">"));
                push_all(&mut out, &final_html);
                push_all(&mut out, &to_chars("</div>"));
            } else {
                push_all(&mut out, &to_chars("<div style='display: contents;'>"));
                push_all(&mut out, &final_html);
                push_all(&mut out, &to_chars("</div>"));
            }
            let (rest, rest_math) = markdown_rec(s, dev, m.end);
            push_all(&mut out, &rest);
            proof {
                let ghost cont = s@.subrange(
                    m.start + crate::scan::md_open().len(),
                    m.content_end as int,
                );
                assert(content@ == cont);
                assert((final_html@, had_math) == (
                    crate::model::sp_markdown_block_body(cont),
                    crate::model::sp_markdown_block_math(cont),
                ));
                assert(out@ =~= s@.subrange(pos as int, m.start as int)
                    + crate::model::sp_markdown_block(cont, dev) + rest@);
            }
            (out, had_math || rest_math)
        },
    }
}

} // verus!
