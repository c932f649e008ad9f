//! The math-rendering footprint of a page: a per-result flag that says
//! whether math was rendered, and the stylesheet tag injected into
//! pages that used it.

use vstd::prelude::*;
use crate::text::{contains_seq, from_chars, push_all, spec_replace, to_chars};
use crate::utils::ProcessResult;

verus! {

/// Records on a result that math was rendered.
pub fn mark_katex_used(r: &mut ProcessResult)
    ensures
        final(r).math_used == true,
        final(r).output == old(r).output,
        final(r).errors == old(r).errors,
        final(r).writes == old(r).writes,
{
    r.math_used = true;
}

/// Whether a result rendered math.
pub fn was_katex_used(r: &ProcessResult) -> (b: bool)
    ensures
        b == r.math_used,
{
    r.math_used
}

/// Clears a result's math flag, as each page starts fresh.
pub fn reset_katex_flag(r: &mut ProcessResult)
    ensures
        final(r).math_used == false,
        final(r).output == old(r).output,
        final(r).errors == old(r).errors,
        final(r).writes == old(r).writes,
{
    r.math_used = false;
}

/// The stylesheet tag injected into pages that rendered math.
pub open spec fn katex_css_text() -> Seq<char> {
    "<!-- KaTeX CSS (auto-injected from CDN) -->\n<link rel=\"stylesheet\" href=\"https://cdn.jsdelivr.net/npm/katex@0.16.11/dist/katex.min.css\" integrity=\"sha384-nB0miv6/jRmo5UMMR1wu3Gz6NLsoTkbqJghGIsx//Rlm+ZU03BU6SQNC66uf4l5+\" crossorigin=\"anonymous\">"@
}

/// The stylesheet tag, as written into output pages.
pub fn get_katex_css_tag() -> (r: String)
    ensures
        r@ == katex_css_text(),
{
    from_chars(
        &to_chars(
            "<!-- KaTeX CSS (auto-injected from CDN) -->\n<link rel=\"stylesheet\" href=\"https://cdn.jsdelivr.net/npm/katex@0.16.11/dist/katex.min.css\" integrity=\"sha384-nB0miv6/jRmo5UMMR1wu3Gz6NLsoTkbqJghGIsx//Rlm+ZU03BU6SQNC66uf4l5+\" crossorigin=\"anonymous\">",
        ),
    )
}

/// The page with the stylesheet tag after each `<head>`, or prepended
/// when the page has no `<head>`.
pub open spec fn spec_inject_css(s: Seq<char>) -> Seq<char> {
    if contains_seq(s, "<head>"@) {
        spec_replace(s, "<head>"@, "<head>"@ + "\n"@ + katex_css_text())
    } else {
        katex_css_text() + "\n"@ + s
    }
}

/// Injects the math stylesheet tag into a page that rendered math.
pub fn inject_katex_css(s: Vec<char>) -> (r: Vec<char>)
    ensures
        r@ == spec_inject_css(s@),
{
    let head = to_chars("<head>");
    let tag = to_chars(get_katex_css_tag().as_str());
    match crate::text::find_from(&s, &head, 0) {
        Some(_) => {
            proof {
                crate::text::lemma_spec_find_exists(s@, head@);
                crate::text::lemma_spec_find(s@, head@, 0);
            }
            let mut with_tag = to_chars("<head>");
            push_all(&mut with_tag, &to_chars("\n"));
            push_all(&mut with_tag, &tag);
            proof {
                assert(with_tag@ =~= "<head>"@ + "\n"@ + katex_css_text());
            }
            crate::text::replace_all(&s, &head, &with_tag)
        },
        None => {
            proof {
                crate::text::lemma_spec_find_exists(s@, head@);
            }
            let mut out = tag;
            push_all(&mut out, &to_chars("\n"));
            push_all(&mut out, &s);
            proof {
                assert(out@ =~= katex_css_text() + "\n"@ + s@);
            }
            out
        },
    }
}

} // verus!
