//! The resolution model: what every engine function returns, as
//! spec-level functions of the project snapshot and the buffer.  The
//! executable engine carries `ensures` clauses tying its output text,
//! math flag, diagnostic list and queued writes to this model, so
//! resolution is a function of the snapshot, the configuration and the
//! buffer alone.  Diagnostics are modeled as kind, item and path in
//! order; their optional messages are not modeled, as a parse failure's
//! message comes from the outside parser.

use vstd::prelude::*;
use crate::engine::{
    entry_key, has_slot_pair, no_markers, result_key, spec_entry_file_path, spec_inject_reload,
    spec_substitute_slot, trim_lead_slash, BuildConfig,
};
use crate::error::{ErrorType, ProcessError, WithItem};
use crate::frontmatter::{has_field_seq, sp_frontmatter, sp_manifest_records, sp_md_path};
use crate::json::{json_parses, json_records_of};
use crate::paths::{
    spec_component_path, spec_data_json_path, spec_data_toml_path, spec_frame_path,
    spec_template_path,
};
use crate::utils::OutputFile;
use crate::render::{katex_html_of, katex_ok, markdown_html_of, spec_escape_attr, spec_trim};
use crate::scan::{
    markdown_match, math_parse, md_close, md_open, span_close, tag_match, tag_name_end,
    template_match, tpl_open,
};
use crate::store::{store_free, FileStore};
use crate::text::{contains_seq, spec_find};
use crate::utils::{attr_region, scan_attrs, spec_kv_replace};

verus! {

/// The leftmost component tag at or after `i`: its start, its name's
/// end, and its end.
pub open spec fn first_tag_from(s: Seq<char>, i: int, self_closing: bool) -> Option<
    (int, int, int),
>
    decreases s.len() - i,
{
    if !(0 <= i && i < s.len()) {
        None
    } else {
        match tag_match(s, i, self_closing) {
            Some(e) => match tag_name_end(s, i + 1) {
                Some(ne) => Some((i, ne, e)),
                None => None,
            },
            None => first_tag_from(s, i + 1, self_closing),
        }
    }
}

pub proof fn lemma_first_tag_some(
    s: Seq<char>,
    from: int,
    st: int,
    ne: int,
    e: int,
    self_closing: bool,
)
    requires
        0 <= from <= st < s.len(),
        tag_match(s, st, self_closing) == Some(e),
        tag_name_end(s, st + 1) == Some(ne),
        forall|j: int| from <= j < st ==> tag_match(s, j, self_closing) is None,
    ensures
        first_tag_from(s, from, self_closing) == Some((st, ne, e)),
    decreases st - from,
{
    if from < st {
        lemma_first_tag_some(s, from + 1, st, ne, e, self_closing);
    }
}

pub proof fn lemma_first_tag_none(s: Seq<char>, from: int, self_closing: bool)
    requires
        0 <= from,
        forall|j: int| from <= j ==> tag_match(s, j, self_closing) is None,
    ensures
        first_tag_from(s, from, self_closing) is None,
    decreases s.len() - from,
{
    if from < s.len() {
        lemma_first_tag_none(s, from + 1, self_closing);
    }
}

/// The leftmost template reference at or after `i`: its start, its
/// name's end, and its end.
pub open spec fn first_template_from(s: Seq<char>, i: int) -> Option<(int, int, int)>
    decreases s.len() - i,
{
    if !(0 <= i && i < s.len()) {
        None
    } else {
        match template_match(s, i) {
            Some((ne, e)) => Some((i, ne, e)),
            None => first_template_from(s, i + 1),
        }
    }
}

pub proof fn lemma_first_template_some(s: Seq<char>, from: int, st: int, ne: int, e: int)
    requires
        0 <= from <= st < s.len(),
        template_match(s, st) == Some((ne, e)),
        forall|j: int| from <= j < st ==> template_match(s, j) is None,
    ensures
        first_template_from(s, from) == Some((st, ne, e)),
    decreases st - from,
{
    if from < st {
        lemma_first_template_some(s, from + 1, st, ne, e);
    }
}

pub proof fn lemma_first_template_none(s: Seq<char>, from: int)
    requires
        0 <= from,
        forall|j: int| from <= j ==> template_match(s, j) is None,
    ensures
        first_template_from(s, from) is None,
    decreases s.len() - from,
{
    if from < s.len() {
        lemma_first_template_none(s, from + 1);
    }
}

/// The leftmost markdown block at or after `i`: its start, its
/// content's end, and its end.
pub open spec fn first_markdown_from(s: Seq<char>, i: int) -> Option<(int, int, int)>
    decreases s.len() - i,
{
    if !(0 <= i && i < s.len()) {
        None
    } else {
        match markdown_match(s, i) {
            Some((c, e)) => Some((i, c, e)),
            None => first_markdown_from(s, i + 1),
        }
    }
}

pub proof fn lemma_first_markdown_some(s: Seq<char>, from: int, st: int, c: int, e: int)
    requires
        0 <= from <= st < s.len(),
        markdown_match(s, st) == Some((c, e)),
        forall|j: int| from <= j < st ==> markdown_match(s, j) is None,
    ensures
        first_markdown_from(s, from) == Some((st, c, e)),
    decreases st - from,
{
    if from < st {
        lemma_first_markdown_some(s, from + 1, st, c, e);
    }
}

pub proof fn lemma_first_markdown_none(s: Seq<char>, from: int)
    requires
        0 <= from,
        forall|j: int| from <= j ==> markdown_match(s, j) is None,
    ensures
        first_markdown_from(s, from) is None,
    decreases s.len() - from,
{
    if from < s.len() {
        lemma_first_markdown_none(s, from + 1);
    }
}

/// The leftmost math span at or after `i`: its start, its display
/// mode, and its content's bounds.
pub open spec fn first_math_from(s: Seq<char>, i: int) -> Option<(int, bool, int, int)>
    decreases s.len() - i,
{
    if !(0 <= i && i < s.len()) {
        None
    } else {
        match math_parse(s, i) {
            Some((display, cs, ce)) => Some((i, display, cs, ce)),
            None => first_math_from(s, i + 1),
        }
    }
}

pub proof fn lemma_first_math_some(
    s: Seq<char>,
    from: int,
    st: int,
    display: bool,
    cs: int,
    ce: int,
)
    requires
        0 <= from <= st < s.len(),
        math_parse(s, st) == Some((display, cs, ce)),
        forall|j: int| from <= j < st ==> math_parse(s, j) is None,
    ensures
        first_math_from(s, from) == Some((st, display, cs, ce)),
    decreases st - from,
{
    if from < st {
        lemma_first_math_some(s, from + 1, st, display, cs, ce);
    }
}

pub proof fn lemma_first_math_none(s: Seq<char>, from: int)
    requires
        0 <= from,
        forall|j: int| from <= j ==> math_parse(s, j) is None,
    ensures
        first_math_from(s, from) is None,
    decreases s.len() - from,
{
    if from < s.len() {
        lemma_first_math_none(s, from + 1);
    }
}

/// The math pass over one rendered block, from `pos` on: every math
/// span replaced by its KaTeX rendering, left to right; `None` as soon
/// as one span's source is rejected, as the whole block then falls
/// back.  The flag reports whether any span was rendered.
pub open spec fn sp_math(s: Seq<char>, pos: int) -> Option<(Seq<char>, bool)>
    decreases s.len() - pos,
{
    if !(0 <= pos && pos <= s.len()) {
        None
    } else {
        match first_math_from(s, pos) {
            None => Some((s.subrange(pos, s.len() as int), false)),
            Some((st, display, cs, ce)) => {
                let latex = if pos <= st && st <= cs && cs <= ce && ce <= s.len() {
                    s.subrange(cs, ce)
                } else {
                    Seq::empty()
                };
                if !katex_ok(latex, display) {
                    None
                } else {
                    let e = ce + span_close().len();
                    if pos <= st && st <= cs && cs <= ce && e <= s.len() && pos < e {
                        match sp_math(s, e) {
                            None => None,
                            Some((rest, _)) => Some(
                                (s.subrange(pos, st) + katex_html_of(latex, display) + rest, true),
                            ),
                        }
                    } else {
                        None
                    }
                }
            },
        }
    }
}

/// The markup of a rendered block's wrapper.
pub open spec fn div_open_dev() -> Seq<char> {
    "<div style='display: contents;' data-markdown-source=\""@
}

pub open spec fn div_attr_close() -> Seq<char> {
    "\">"@
}

pub open spec fn div_open() -> Seq<char> {
    "<div style='display: contents;'>"@
}

pub open spec fn div_close() -> Seq<char> {
    "</div>"@
}

/// The HTML inside one rendered block's wrapper: the rendered markdown
/// with its math pass applied, or unchanged when a span failed.
pub open spec fn sp_markdown_block_body(content: Seq<char>) -> Seq<char> {
    let rendered = markdown_html_of(crate::utils::spec_unindent(content));
    match sp_math(rendered, 0) {
        Some((h, _)) => h,
        None => rendered,
    }
}

/// One rendered markdown block, wrapped for the build mode: the
/// development wrapper carries the escaped source for live editing.
pub open spec fn sp_markdown_block(content: Seq<char>, dev: bool) -> Seq<char> {
    let unind = crate::utils::spec_unindent(content);
    let block = sp_markdown_block_body(content);
    if dev {
        div_open_dev() + spec_escape_attr(spec_trim(unind)) + div_attr_close() + block
            + div_close()
    } else {
        div_open() + block + div_close()
    }
}

/// Whether one rendered markdown block rendered any math.
pub open spec fn sp_markdown_block_math(content: Seq<char>) -> bool {
    match sp_math(markdown_html_of(crate::utils::spec_unindent(content)), 0) {
        Some((_, m)) => m,
        None => false,
    }
}

/// The markdown pass from `pos` on: every block lifted to HTML, text
/// outside blocks kept; the flag reports whether any block rendered
/// math.
pub open spec fn sp_markdown(s: Seq<char>, dev: bool, pos: int) -> (Seq<char>, bool)
    decreases s.len() - pos,
{
    if !(0 <= pos && pos <= s.len()) {
        (Seq::empty(), false)
    } else {
        match first_markdown_from(s, pos) {
            None => (s.subrange(pos, s.len() as int), false),
            Some((st, c, e)) => {
                if pos <= st && st + md_open().len() <= c && c <= e && e <= s.len() && pos < e {
                    let content = s.subrange(st + md_open().len(), c);
                    let (rest, m) = sp_markdown(s, dev, e);
                    (
                        s.subrange(pos, st) + sp_markdown_block(content, dev) + rest,
                        sp_markdown_block_math(content) || m,
                    )
                } else {
                    (Seq::empty(), false)
                }
            },
        }
    }
}

/// One modeled diagnostic: kind, item and path; the message is not
/// modeled.
pub struct SpErr {
    pub et: ErrorType,
    pub item: WithItem,
    pub path: Seq<char>,
}

/// One modeled output file.
pub struct SpWrite {
    pub path: Seq<char>,
    pub bytes: Seq<u8>,
}

/// What one resolution call yields: text, math flag, diagnostics and
/// queued writes, each in order.
pub struct SpRes {
    pub text: Seq<char>,
    pub math: bool,
    pub errs: Seq<SpErr>,
    pub writes: Seq<SpWrite>,
}

/// Diagnostics and writes alone, for entries.
pub struct SpOutcome {
    pub errs: Seq<SpErr>,
    pub writes: Seq<SpWrite>,
}

/// The modeled part of a diagnostic.
pub open spec fn err_view(e: ProcessError) -> SpErr {
    SpErr { et: e.error_type, item: e.item, path: e.path@ }
}

/// The modeled parts of a diagnostic list.
pub open spec fn errs_view(es: Seq<ProcessError>) -> Seq<SpErr> {
    es.map_values(|e: ProcessError| err_view(e))
}

/// The view of one queued output file.
pub open spec fn write_view(w: OutputFile) -> SpWrite {
    SpWrite { path: w.path@, bytes: w.bytes@ }
}

/// The views of a queued write list.
pub open spec fn writes_view(ws: Seq<OutputFile>) -> Seq<SpWrite> {
    ws.map_values(|w: OutputFile| write_view(w))
}

/// An empty result carrying the given diagnostics.
pub open spec fn sp_fail(errs: Seq<SpErr>) -> SpRes {
    SpRes { text: Seq::empty(), math: false, errs, writes: Seq::empty() }
}

/// The end tag paired with a wrapping component reference.
pub open spec fn end_tag_of(name: Seq<char>) -> Seq<char> {
    "</"@ + name + ">"@
}

/// A text ending with the given suffix.
pub open spec fn ends_with(s: Seq<char>, suffix: Seq<char>) -> bool {
    s.len() >= suffix.len() && s.subrange(s.len() - suffix.len(), s.len() as int) == suffix
}

/// The usable records of a data array: the objects all of whose values
/// are strings, unwrapped, in document order.
pub open spec fn sp_valid(
    raws: Seq<Option<Seq<(Seq<char>, Option<Seq<char>>)>>>,
    i: int,
) -> Seq<Seq<(Seq<char>, Seq<char>)>>
    decreases raws.len() - i,
{
    if !(0 <= i && i < raws.len()) {
        Seq::empty()
    } else {
        let rest = sp_valid(raws, i + 1);
        match raws[i] {
            None => rest,
            Some(f) => if forall|j: int| 0 <= j < f.len() ==> (#[trigger] f[j]).1 is Some {
                seq![
                    f.map_values(
                        |p: (Seq<char>, Option<Seq<char>>)| (p.0, p.1->Some_0),
                    ),
                ] + rest
            } else {
                rest
            },
        }
    }
}

/// One `Syntax` diagnostic per malformed record of a data array, in
/// record order.
pub open spec fn sp_record_errs(
    raws: Seq<Option<Seq<(Seq<char>, Option<Seq<char>>)>>>,
    path: Seq<char>,
    i: int,
) -> Seq<SpErr>
    decreases raws.len() - i,
{
    if !(0 <= i && i < raws.len()) {
        Seq::empty()
    } else {
        let rest = sp_record_errs(raws, path, i + 1);
        match raws[i] {
            None => seq![SpErr { et: ErrorType::Syntax, item: WithItem::Data, path }] + rest,
            Some(f) => if forall|j: int| 0 <= j < f.len() ==> (#[trigger] f[j]).1 is Some {
                rest
            } else {
                seq![SpErr { et: ErrorType::Syntax, item: WithItem::Data, path }] + rest
            },
        }
    }
}

/// One diagnostic per failing manifest file, in file order: `NotFound`
/// for a file missing from the snapshot, `Syntax` for one whose front
/// matter does not extract.
pub open spec fn sp_manifest_errs(
    store: FileStore,
    name: Seq<char>,
    files: Seq<Seq<char>>,
    i: int,
) -> Seq<SpErr>
    decreases files.len() - i,
{
    if !(0 <= i && i < files.len()) {
        Seq::empty()
    } else {
        let rest = sp_manifest_errs(store, name, files, i + 1);
        match store.lookup(sp_md_path(name, files[i])) {
            None => seq![
                SpErr {
                    et: ErrorType::NotFound,
                    item: WithItem::Data,
                    path: sp_md_path(name, files[i]),
                },
            ] + rest,
            Some(content) => match sp_frontmatter(content) {
                None => seq![
                    SpErr {
                        et: ErrorType::Syntax,
                        item: WithItem::Data,
                        path: sp_md_path(name, files[i]),
                    },
                ] + rest,
                Some(_) => rest,
            },
        }
    }
}

/// The single diagnostic a failing template data load yields, or
/// `None` when the data loads: the JSON file is preferred, the
/// markdown manifest is the fallback.
pub open spec fn sp_data_err(store: FileStore, name: Seq<char>) -> Option<SpErr> {
    match store.lookup(spec_data_json_path(name)) {
        Some(data) => if !json_parses(data) || json_records_of(data) is None {
            Some(
                SpErr {
                    et: ErrorType::Syntax,
                    item: WithItem::Data,
                    path: spec_data_json_path(name),
                },
            )
        } else {
            None
        },
        None => match store.lookup(spec_data_toml_path(name)) {
            None => Some(
                SpErr {
                    et: ErrorType::NotFound,
                    item: WithItem::Data,
                    path: spec_data_toml_path(name),
                },
            ),
            Some(t) => if !crate::frontmatter::toml_parses(t)
                || crate::frontmatter::toml_files_of(t) is None {
                Some(
                    SpErr {
                        et: ErrorType::Syntax,
                        item: WithItem::Data,
                        path: spec_data_toml_path(name),
                    },
                )
            } else {
                None
            },
        },
    }
}

/// The soft per-record diagnostics of a loaded data source.
pub open spec fn sp_soft_errs(store: FileStore, name: Seq<char>) -> Seq<SpErr> {
    match store.lookup(spec_data_json_path(name)) {
        Some(data) => match json_records_of(data) {
            Some(raws) => sp_record_errs(raws, spec_data_json_path(name), 0),
            None => Seq::empty(),
        },
        None => match store.lookup(spec_data_toml_path(name)) {
            Some(t) => match crate::frontmatter::toml_files_of(t) {
                Some(files) => sp_manifest_errs(store, name, files, 0),
                None => Seq::empty(),
            },
            None => Seq::empty(),
        },
    }
}

/// The records a template's data yields: from the JSON array when the
/// JSON data file exists, else from the markdown manifest; `None` on
/// any load failure.
pub open spec fn sp_template_records(store: FileStore, name: Seq<char>) -> Option<
    Seq<Seq<(Seq<char>, Seq<char>)>>,
> {
    match store.lookup(spec_data_json_path(name)) {
        Some(data) => if !json_parses(data) {
            None
        } else {
            match json_records_of(data) {
                None => None,
                Some(raws) => Some(sp_valid(raws, 0)),
            }
        },
        None => sp_manifest_records(store, name),
    }
}

/// The shell expanded once per record, concatenated in record order.
pub open spec fn sp_expand(
    kvs: Seq<Seq<(Seq<char>, Seq<char>)>>,
    shell: Seq<char>,
    i: int,
) -> Seq<char>
    decreases kvs.len() - i,
{
    if !(0 <= i && i < kvs.len()) {
        Seq::empty()
    } else {
        spec_kv_replace(kvs[i], shell, 0) + sp_expand(kvs, shell, i + 1)
    }
}

/// The value of the last field carrying `key` among the first `i`
/// fields of a record, or empty when none does.
pub open spec fn sp_last_value(
    kv: Seq<(Seq<char>, Seq<char>)>,
    key: Seq<char>,
    i: int,
) -> Seq<char>
    decreases i,
{
    if i <= 0 {
        Seq::empty()
    } else if kv[i - 1].0 == key {
        kv[i - 1].1
    } else {
        sp_last_value(kv, key, i - 1)
    }
}

/// The resolution of a whole buffer: markdown lifted first, then one
/// wrapping-component pass, one self-closing-component pass and one
/// template pass, each fed the previous pass's output; the math flags,
/// diagnostics and queued writes of the passes combine in pass order.
pub open spec fn sp_page(
    store: FileStore,
    cfg: BuildConfig,
    s: Seq<char>,
    hist: Seq<Seq<char>>,
) -> SpRes
    decreases store_free(store, hist), 3int, 0int,
{
    let md = if contains_seq(s, md_close()) {
        sp_markdown(s, cfg.dev, 0)
    } else {
        (s, false)
    };
    let r1 = sp_comp_pass(store, cfg, md.0, 0, false, hist);
    let r2 = sp_comp_pass(store, cfg, r1.text, 0, true, hist);
    let r3 = sp_tpl_pass(store, cfg, r2.text, 0, hist);
    SpRes {
        text: r3.text,
        math: md.1 || r1.math || r2.math || r3.math,
        errs: r1.errs + r2.errs + r3.errs,
        writes: r1.writes + r2.writes + r3.writes,
    }
}

/// One component pass from `pos` on: each reference of the given form
/// replaced in place by its resolution, text outside matches kept; a
/// wrapping reference consumes its inner content and end tag.  A
/// malformed attribute region contributes one `Syntax` diagnostic and
/// the reference resolves with no attributes.
pub open spec fn sp_comp_pass(
    store: FileStore,
    cfg: BuildConfig,
    s: Seq<char>,
    pos: int,
    self_closing: bool,
    hist: Seq<Seq<char>>,
) -> SpRes
    decreases store_free(store, hist), 2int, s.len() - pos,
{
    if !(0 <= pos && pos <= s.len()) {
        sp_fail(Seq::empty())
    } else {
        match first_tag_from(s, pos, self_closing) {
            None => SpRes {
                text: s.subrange(pos, s.len() as int),
                math: false,
                errs: Seq::empty(),
                writes: Seq::empty(),
            },
            Some((st, ne, e)) => if pos <= st && st + 1 <= ne && ne <= e && e <= s.len() && pos
                < e {
                let name = s.subrange(st + 1, ne);
                let found = s.subrange(st, e);
                let (targets, terr): (Seq<(Seq<char>, Seq<char>)>, Seq<SpErr>) = match scan_attrs(
                    attr_region(name, found),
                    0,
                ) {
                    Some(ps) => (ps, Seq::empty()),
                    None => (
                        Seq::empty(),
                        seq![
                            SpErr { et: ErrorType::Syntax, item: WithItem::Component, path: name },
                        ],
                    ),
                };
                let slot_next: (Option<Seq<char>>, int) = if self_closing {
                    (None, e)
                } else {
                    match spec_find(s, end_tag_of(name), e) {
                        Some(c) => (
                            if c > e {
                                Some(s.subrange(e, c))
                            } else {
                                None
                            },
                            c + end_tag_of(name).len(),
                        ),
                        None => (None, e),
                    }
                };
                let comp = sp_component(
                    store,
                    cfg,
                    name,
                    targets,
                    slot_next.0,
                    !self_closing,
                    hist,
                );
                if pos < slot_next.1 && slot_next.1 <= s.len() {
                    let rest = sp_comp_pass(store, cfg, s, slot_next.1, self_closing, hist);
                    SpRes {
                        text: s.subrange(pos, st) + comp.text + rest.text,
                        math: comp.math || rest.math,
                        errs: terr + comp.errs + rest.errs,
                        writes: comp.writes + rest.writes,
                    }
                } else {
                    sp_fail(Seq::empty())
                }
            } else {
                sp_fail(Seq::empty())
            },
        }
    }
}

/// The resolution of one component reference: its definition read
/// fresh, attributes substituted, the slot spliced for wrapping use,
/// and the body resolved under the extended history; any failure
/// yields empty text and exactly one diagnostic.
pub open spec fn sp_component(
    store: FileStore,
    cfg: BuildConfig,
    name: Seq<char>,
    targets: Seq<(Seq<char>, Seq<char>)>,
    slot: Option<Seq<char>>,
    wrapping: bool,
    hist: Seq<Seq<char>>,
) -> SpRes
    decreases store_free(store, hist), 1int, 0int,
{
    let path = spec_component_path(name);
    if hist.contains(path) {
        sp_fail(seq![SpErr { et: ErrorType::Circular, item: WithItem::Component, path }])
    } else {
        match store.lookup(path) {
            None => sp_fail(
                seq![SpErr { et: ErrorType::NotFound, item: WithItem::Component, path }],
            ),
            Some(body) => if wrapping && !has_slot_pair(body) {
                sp_fail(seq![SpErr { et: ErrorType::Syntax, item: WithItem::Component, path }])
            } else {
                let st = spec_kv_replace(targets, body, 0);
                let st2 = if wrapping {
                    match slot {
                        Some(c) => spec_substitute_slot(st, c),
                        None => st,
                    }
                } else {
                    st
                };
                if store_free(store, hist.push(path)) < store_free(store, hist) {
                    sp_page(store, cfg, st2, hist.push(path))
                } else {
                    sp_fail(Seq::empty())
                }
            },
        }
    }
}

/// One template pass from `pos` on: each reference replaced in place
/// by the named template's resolution.
pub open spec fn sp_tpl_pass(
    store: FileStore,
    cfg: BuildConfig,
    s: Seq<char>,
    pos: int,
    hist: Seq<Seq<char>>,
) -> SpRes
    decreases store_free(store, hist), 2int, s.len() - pos,
{
    if !(0 <= pos && pos <= s.len()) {
        sp_fail(Seq::empty())
    } else {
        match first_template_from(s, pos) {
            None => SpRes {
                text: s.subrange(pos, s.len() as int),
                math: false,
                errs: Seq::empty(),
                writes: Seq::empty(),
            },
            Some((st, ne, e)) => if pos <= st && st + tpl_open().len() <= ne && ne <= e && e
                <= s.len() && pos < e {
                let name = s.subrange(st + tpl_open().len(), ne);
                let t = sp_template(store, cfg, name, hist);
                let rest = sp_tpl_pass(store, cfg, s, e, hist);
                SpRes {
                    text: s.subrange(pos, st) + t.text + rest.text,
                    math: t.math || rest.math,
                    errs: t.errs + rest.errs,
                    writes: t.writes + rest.writes,
                }
            } else {
                sp_fail(Seq::empty())
            },
        }
    }
}

/// The entry outcomes of a template's records, in record order: a
/// record carrying a reserved key resolves and queues its standalone
/// output under the extended history.
pub open spec fn sp_entries(
    store: FileStore,
    cfg: BuildConfig,
    name: Seq<char>,
    kvs: Seq<Seq<(Seq<char>, Seq<char>)>>,
    i: int,
    hist2: Seq<Seq<char>>,
) -> SpOutcome
    decreases store_free(store, hist2), 5int, kvs.len() - i,
{
    if !(0 <= i && i < kvs.len()) {
        SpOutcome { errs: Seq::empty(), writes: Seq::empty() }
    } else {
        let kv = kvs[i];
        let rest = sp_entries(store, cfg, name, kvs, i + 1, hist2);
        if has_field_seq(kv, entry_key()) || has_field_seq(kv, result_key()) {
            let ent = sp_entry(
                store,
                cfg,
                name,
                sp_last_value(kv, entry_key(), kv.len() as int),
                sp_last_value(kv, result_key(), kv.len() as int),
                kv,
                hist2,
            );
            SpOutcome { errs: ent.errs + rest.errs, writes: ent.writes + rest.writes }
        } else {
            rest
        }
    }
}

/// The resolution of one template reference: the shell and its data
/// read fresh (one diagnostic per missing or unreadable file), the
/// shell expanded once per usable record in record order, entry
/// records resolved and queued, and the concatenation resolved under
/// the extended history.
pub open spec fn sp_template(
    store: FileStore,
    cfg: BuildConfig,
    name: Seq<char>,
    hist: Seq<Seq<char>>,
) -> SpRes
    decreases store_free(store, hist), 1int, 0int,
{
    let tpath = spec_template_path(name);
    if hist.contains(tpath) {
        sp_fail(seq![SpErr { et: ErrorType::Circular, item: WithItem::Template, path: tpath }])
    } else {
        let shell_err: Seq<SpErr> = if store.lookup(tpath) is None {
            seq![SpErr { et: ErrorType::NotFound, item: WithItem::Template, path: tpath }]
        } else {
            Seq::empty()
        };
        let data_err: Seq<SpErr> = match sp_data_err(store, name) {
            Some(e) => seq![e],
            None => Seq::empty(),
        };
        if store.lookup(tpath) is None || sp_data_err(store, name) is Some {
            sp_fail(shell_err + data_err)
        } else {
            let shell = store.lookup(tpath)->Some_0;
            match sp_template_records(store, name) {
                None => sp_fail(shell_err + data_err),
                Some(kvs) => if store_free(store, hist.push(tpath)) < store_free(store, hist) {
                    let ent = sp_entries(store, cfg, name, kvs, 0, hist.push(tpath));
                    let pg = sp_page(store, cfg, sp_expand(kvs, shell, 0), hist.push(tpath));
                    SpRes {
                        text: pg.text,
                        math: pg.math,
                        errs: sp_soft_errs(store, name) + ent.errs + pg.errs,
                        writes: ent.writes + pg.writes,
                    }
                } else {
                    sp_fail(Seq::empty())
                },
            }
        }
    }
}

/// The placeholder an entry's frame carries for its content.
pub open spec fn content_key() -> Seq<char> {
    "${--content}"@
}

/// The outcome of one entry record: the content file (markdown wrapped
/// and stripped of front matter) spliced into the frame's content
/// placeholder, the record's fields substituted, the result resolved
/// under the branch history and queued, post-processed, at the
/// designated result path.  Both reserved keys must be non-empty, and
/// the frame and content files present, or one diagnostic is the whole
/// outcome.
pub open spec fn sp_entry(
    store: FileStore,
    cfg: BuildConfig,
    name: Seq<char>,
    entry_path: Seq<char>,
    result_path: Seq<char>,
    kv: Seq<(Seq<char>, Seq<char>)>,
    hist: Seq<Seq<char>>,
) -> SpOutcome
    decreases store_free(store, hist), 4int, 0int,
{
    if entry_path.len() == 0 || result_path.len() == 0 {
        SpOutcome {
            errs: seq![
                SpErr { et: ErrorType::Other, item: WithItem::Template, path: result_path },
            ],
            writes: Seq::empty(),
        }
    } else if store.lookup(spec_frame_path(name)) is None {
        SpOutcome {
            errs: seq![
                SpErr {
                    et: ErrorType::NotFound,
                    item: WithItem::Data,
                    path: spec_frame_path(name),
                },
            ],
            writes: Seq::empty(),
        }
    } else if store.lookup(spec_entry_file_path(entry_path)) is None {
        SpOutcome {
            errs: seq![
                SpErr {
                    et: ErrorType::NotFound,
                    item: WithItem::Data,
                    path: spec_entry_file_path(entry_path),
                },
            ],
            writes: Seq::empty(),
        }
    } else {
        let frame = store.lookup(spec_frame_path(name))->Some_0;
        let content = store.lookup(spec_entry_file_path(entry_path))->Some_0;
        let spliced = if ends_with(entry_path, ".md"@) {
            let body = match sp_frontmatter(content) {
                Some(p) => p.1,
                None => content,
            };
            crate::text::spec_replace(
                frame,
                content_key(),
                "<markdown>\n"@ + body + "</markdown>"@,
            )
        } else {
            crate::text::spec_replace(frame, content_key(), content)
        };
        let pg = sp_page(store, cfg, spec_kv_replace(kv, spliced, 0), hist);
        SpOutcome {
            errs: pg.errs,
            writes: pg.writes.push(
                SpWrite {
                    path: trim_lead_slash(result_path),
                    bytes: sp_out_bytes(cfg, pg.text, pg.math),
                },
            ),
        }
    }
}

/// A resolved page after mode post-processing: the math stylesheet
/// injected when math was rendered and injection is on, the
/// live-reload tooling injected in development mode.
pub open spec fn sp_postprocess(cfg: BuildConfig, t: Seq<char>, math: bool) -> Seq<char> {
    let t1 = if math && !cfg.katex_css_disabled {
        crate::katex_assets::spec_inject_css(t)
    } else {
        t
    };
    if cfg.dev {
        spec_inject_reload(t1, cfg.reload_script@, cfg.ws_port)
    } else {
        t1
    }
}

/// The bytes written for a resolved page: its UTF-8 in development
/// mode, its minification in production.
pub open spec fn sp_out_bytes(cfg: BuildConfig, t: Seq<char>, math: bool) -> Seq<u8> {
    if cfg.dev {
        vstd::utf8::encode_utf8(sp_postprocess(cfg, t, math))
    } else {
        crate::render::minified_of(sp_postprocess(cfg, t, math))
    }
}

/// A pass over a buffer without a reference of its form leaves the
/// buffer unchanged, with no diagnostics and nothing queued.
pub proof fn lemma_sp_comp_pass_id(
    store: FileStore,
    cfg: BuildConfig,
    s: Seq<char>,
    self_closing: bool,
    hist: Seq<Seq<char>>,
)
    requires
        crate::scan::no_tag(s, self_closing),
    ensures
        sp_comp_pass(store, cfg, s, 0, self_closing, hist) == (SpRes {
            text: s,
            math: false,
            errs: Seq::<SpErr>::empty(),
            writes: Seq::<SpWrite>::empty(),
        }),
{
    lemma_first_tag_none(s, 0, self_closing);
    assert(s.subrange(0, s.len() as int) =~= s);
}

pub proof fn lemma_sp_tpl_pass_id(
    store: FileStore,
    cfg: BuildConfig,
    s: Seq<char>,
    hist: Seq<Seq<char>>,
)
    requires
        crate::scan::no_template(s),
    ensures
        sp_tpl_pass(store, cfg, s, 0, hist) == (SpRes {
            text: s,
            math: false,
            errs: Seq::<SpErr>::empty(),
            writes: Seq::<SpWrite>::empty(),
        }),
{
    lemma_first_template_none(s, 0);
    assert(s.subrange(0, s.len() as int) =~= s);
}

/// The identity law at the model level: a buffer without any marker
/// resolves to itself, rendering no math, with no diagnostics and
/// nothing queued.
pub proof fn lemma_sp_page_id(
    store: FileStore,
    cfg: BuildConfig,
    s: Seq<char>,
    hist: Seq<Seq<char>>,
)
    requires
        no_markers(s),
    ensures
        sp_page(store, cfg, s, hist) == (SpRes {
            text: s,
            math: false,
            errs: Seq::<SpErr>::empty(),
            writes: Seq::<SpWrite>::empty(),
        }),
{
    lemma_sp_comp_pass_id(store, cfg, s, false, hist);
    lemma_sp_comp_pass_id(store, cfg, s, true, hist);
    lemma_sp_tpl_pass_id(store, cfg, s, hist);
    assert(sp_page(store, cfg, s, hist).errs =~= Seq::<SpErr>::empty());
    assert(sp_page(store, cfg, s, hist).writes =~= Seq::<SpWrite>::empty());
}

} // verus!
