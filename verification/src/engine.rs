//! The resolution engine: a fixed-order pass pipeline over a markup
//! buffer (markdown first, then wrapping components, then self-closing
//! components, then template references), with a history-based cycle
//! guard passed by value down every recursive branch.

use vstd::prelude::*;
use vstd::string::StrSliceExecFns;
use crate::error::{err_is, ErrorType, ProcessError, WithItem};
use crate::json::{raw_record_view, raw_records_view, RawRecord};
use crate::store::{FileStore, Hist, hist_view, store_free};
use crate::text::{
    contains_at, contains_seq, copy_chars, copy_range, from_chars, push_all, spec_find, to_chars,
};
use crate::utils::{kvs_pairs_view, pairs_view, spec_kv_replace, OutputFile, ProcessResult};

verus! {

/// The configuration threaded through every resolution call: the build
/// mode, and what development mode injects into each page.
pub struct BuildConfig {
    pub dev: bool,
    pub ws_port: u16,
    pub reload_script: String,
    pub katex_css_disabled: bool,
}

/// The internal shape of one resolution result, before conversion to
/// the public `ProcessResult`.
pub struct Resolved {
    pub text: Vec<char>,
    pub errors: Vec<ProcessError>,
    pub math_used: bool,
    pub writes: Vec<OutputFile>,
}

/// The modeled view of an internal result.
pub open spec fn res_view(r: Resolved) -> crate::model::SpRes {
    crate::model::SpRes {
        text: r.text@,
        math: r.math_used,
        errs: crate::model::errs_view(r.errors@),
        writes: crate::model::writes_view(r.writes@),
    }
}

/// The modeled view of a public result.
pub open spec fn result_view(r: ProcessResult) -> crate::model::SpRes {
    crate::model::SpRes {
        text: r.output@,
        math: r.math_used,
        errs: crate::model::errs_view(r.errors@),
        writes: crate::model::writes_view(r.writes@),
    }
}

/// The slot delimiters of a wrapping component body.
pub open spec fn slot_open() -> Seq<char> {
    "<slot>"@
}

pub open spec fn slot_close() -> Seq<char> {
    "</slot>"@
}

/// A body that carries both slot markers, as wrapping use requires.
pub open spec fn has_slot_pair(body: Seq<char>) -> bool {
    contains_seq(body, slot_open()) && contains_seq(body, slot_close())
}

/// The last occurrence of `p` at or before `from`.
pub open spec fn spec_rfind(s: Seq<char>, p: Seq<char>, from: int) -> Option<int>
    decreases from + 1,
{
    if from < 0 {
        None
    } else if contains_at(s, from, p) {
        Some(from)
    } else {
        spec_rfind(s, p, from - 1)
    }
}

fn rfind(s: &Vec<char>, p: &Vec<char>, from: usize) -> (r: Option<usize>)
    requires
        from <= s@.len(),
    ensures
        match r {
            Some(i) => spec_rfind(s@, p@, from as int) == Some(i as int) && i + p@.len()
                <= s@.len(),
            None => spec_rfind(s@, p@, from as int) is None,
        },
    decreases from,
{
    if p.len() <= s.len() && from <= s.len() - p.len() && crate::text::match_at(s, p, from) {
        return Some(from);
    }
    if from == 0 {
        proof {
            assert(!contains_at(s@, 0, p@));
            assert(spec_rfind(s@, p@, -1) is None);
            assert(spec_rfind(s@, p@, 0) is None);
        }
        return None;
    }
    proof {
        assert(!contains_at(s@, from as int, p@));
    }
    rfind(s, p, from - 1)
}

/// The body with its slot region, from the first `<slot>` to the last
/// `</slot>` inclusive, replaced by the caller's content; a body
/// without a well-formed region is returned unchanged.
pub open spec fn spec_substitute_slot(body: Seq<char>, content: Seq<char>) -> Seq<char> {
    match spec_find(body, slot_open(), 0) {
        None => body,
        Some(a) => match spec_rfind(body, slot_close(), body.len() as int) {
            None => body,
            Some(b) => if a <= b && b + slot_close().len() <= body.len() {
                body.subrange(0, a) + content + body.skip(b + slot_close().len())
            } else {
                body
            },
        },
    }
}

/// Splices the caller's inner content into the slot region of a
/// component body.
pub fn substitute_slot(body: &Vec<char>, content: &Vec<char>) -> (r: Vec<char>)
    ensures
        r@ == spec_substitute_slot(body@, content@),
{
    let so = to_chars("<slot>");
    let sc = to_chars("</slot>");
    match crate::text::find_from(body, &so, 0) {
        None => copy_chars(body),
        Some(a) => {
            proof {
                crate::text::lemma_spec_find(body@, so@, 0);
            }
            match rfind(body, &sc, body.len()) {
                None => copy_chars(body),
                Some(b) => {
                    if a <= b {
                        let mut out = copy_range(body, 0, a);
                        push_all(&mut out, content);
                        crate::text::push_range(&mut out, body, b + sc.len(), body.len());
                        proof {
                            assert(out@ =~= spec_substitute_slot(body@, content@));
                        }
                        out
                    } else {
                        copy_chars(body)
                    }
                },
            }
        },
    }
}

/// Validates the records of a template's data array.  A malformed
/// record (not an object, or holding a non-string value) is skipped at
/// record granularity with exactly one `Syntax` diagnostic; the usable
/// records are kept in order.
pub fn records_to_kv(records: Vec<RawRecord>, data_path: &str) -> (r: (
    Vec<Vec<(String, String)>>,
    Vec<ProcessError>,
))
    ensures
        kvs_pairs_view(r.0@) == crate::model::sp_valid(raw_records_view(records@), 0),
        crate::model::errs_view(r.1@) == crate::model::sp_record_errs(
            raw_records_view(records@),
            data_path@,
            0,
        ),
{
    let ghost rawsv = raw_records_view(records@);
    let mut kvs: Vec<Vec<(String, String)>> = Vec::new();
    let mut errors: Vec<ProcessError> = Vec::new();
    let mut i: usize = 0;
    while i < records.len()
        invariant
            i <= records@.len(),
            rawsv == raw_records_view(records@),
            crate::model::sp_valid(rawsv, 0) =~~= kvs_pairs_view(kvs@) + crate::model::sp_valid(
                rawsv,
                i as int,
            ),
            crate::model::errs_view(errors@) + crate::model::sp_record_errs(
                rawsv,
                data_path@,
                i as int,
            ) =~= crate::model::sp_record_errs(rawsv, data_path@, 0),
        decreases records@.len() - i,
    {
        proof {
            assert(rawsv[i as int] == raw_record_view(records@[i as int]));
        }
        let valid = match &records[i] {
            RawRecord::NotObject => false,
            RawRecord::Fields(f) => all_some(f),
        };
        proof {
            if records@[i as int] is Fields {
                lemma_record_view_fields(records@[i as int]);
            }
        }
        if valid {
            let kv = match &records[i] {
                RawRecord::Fields(f) => unwrap_fields(f),
                RawRecord::NotObject => Vec::new(),
            };
            let ghost kvs0 = kvs@;
            kvs.push(kv);
            proof {
                assert(crate::model::sp_record_errs(rawsv, data_path@, i as int)
                    =~= crate::model::sp_record_errs(rawsv, data_path@, i + 1));
                let fv = raw_record_view(records@[i as int])->Some_0;
                assert(pairs_view(kv@) =~~= fv.map_values(
                    |p: (Seq<char>, Option<Seq<char>>)| (p.0, p.1->Some_0),
                ));
                assert(kvs_pairs_view(kvs@) =~~= kvs_pairs_view(kvs0).push(pairs_view(kv@)));
                assert(crate::model::sp_valid(rawsv, i as int) =~~= seq![
                    fv.map_values(|p: (Seq<char>, Option<Seq<char>>)| (p.0, p.1->Some_0)),
                ] + crate::model::sp_valid(rawsv, i + 1));
                assert(crate::model::sp_valid(rawsv, 0) =~~= kvs_pairs_view(kvs@)
                    + crate::model::sp_valid(rawsv, i + 1));
            }
        } else {
            let msg = match &records[i] {
                RawRecord::NotObject => "Invalid object in JSON",
                RawRecord::Fields(_) => "JSON object value couldn't be decoded to string",
            };
            let ghost errs0 = errors@;
            errors.push(
                ProcessError {
                    error_type: ErrorType::Syntax,
                    item: WithItem::Data,
                    path: from_chars(&to_chars(data_path)),
                    message: Some(from_chars(&to_chars(msg))),
                },
            );
            proof {
                assert(crate::model::errs_view(errors@) =~= crate::model::errs_view(errs0).push(
                    crate::model::SpErr {
                        et: ErrorType::Syntax,
                        item: WithItem::Data,
                        path: data_path@,
                    },
                ));
                if records@[i as int] is Fields {
                    let f = (records@[i as int]->Fields_0)@;
                    let fv = raw_record_view(records@[i as int])->Some_0;
                    assert(exists|j: int| 0 <= j < f.len() && !((#[trigger] f[j]).1 is Some));
                    let j = choose|j: int| 0 <= j < f.len() && !((#[trigger] f[j]).1 is Some);
                    assert((#[trigger] fv[j]).1 is None);
                    assert(!(forall|k: int|
                        0 <= k < fv.len() ==> (#[trigger] fv[k]).1 is Some));
                }
                assert(crate::model::sp_valid(rawsv, i as int) =~~= crate::model::sp_valid(
                    rawsv,
                    i + 1,
                ));
                assert(crate::model::sp_record_errs(rawsv, data_path@, i as int) =~= seq![
                    crate::model::SpErr {
                        et: ErrorType::Syntax,
                        item: WithItem::Data,
                        path: data_path@,
                    },
                ] + crate::model::sp_record_errs(rawsv, data_path@, i + 1));
                assert(crate::model::errs_view(errors@) + crate::model::sp_record_errs(
                    rawsv,
                    data_path@,
                    i + 1,
                ) =~= crate::model::sp_record_errs(rawsv, data_path@, 0));
            }
        }
        i += 1;
    }
    proof {
        assert(crate::model::sp_valid(rawsv, i as int) =~~= Seq::<
            Seq<(Seq<char>, Seq<char>)>,
        >::empty());
        assert(kvs_pairs_view(kvs@) =~~= crate::model::sp_valid(rawsv, 0));
        assert(crate::model::sp_record_errs(rawsv, data_path@, i as int) =~= Seq::<
            crate::model::SpErr,
        >::empty());
        assert(crate::model::errs_view(errors@) =~= crate::model::sp_record_errs(
            rawsv,
            data_path@,
            0,
        ));
    }
    (kvs, errors)
}

/// The fields of an object record, at view level, agree with the
/// executable fields: same keys, and a value present on one side
/// exactly when present on the other.
proof fn lemma_record_view_fields(rec: RawRecord)
    requires
        rec is Fields,
    ensures
        raw_record_view(rec) matches Some(fv) && fv.len() == (rec->Fields_0)@.len() && (forall|
            j: int,
        |
            0 <= j < fv.len() ==> (#[trigger] fv[j]) == (
                (rec->Fields_0)@[j].0@,
                match (rec->Fields_0)@[j].1 {
                    Option::Some(v) => Some(v@),
                    Option::None => None::<Seq<char>>,
                },
            )),
{
    let f = (rec->Fields_0)@;
    let fv = raw_record_view(rec)->Some_0;
    assert forall|j: int| 0 <= j < fv.len() implies (#[trigger] fv[j]) == (
        f[j].0@,
        match f[j].1 {
            Option::Some(v) => Some(v@),
            Option::None => None::<Seq<char>>,
        },
    ) by {
        assert(fv[j] == f.map_values(
            |p: (String, Option<String>)|
                (
                    p.0@,
                    match p.1 {
                        Option::Some(v) => Some(v@),
                        Option::None => None::<Seq<char>>,
                    },
                ),
        )[j]);
    }
}

fn all_some(f: &Vec<(String, Option<String>)>) -> (b: bool)
    ensures
        b == forall|i: int| 0 <= i < f@.len() ==> f@[i].1 is Some,
{
    let mut i: usize = 0;
    while i < f.len()
        invariant
            i <= f@.len(),
            forall|j: int| 0 <= j < i ==> f@[j].1 is Some,
        decreases f@.len() - i,
    {
        let some = match &f[i].1 {
            Option::Some(_) => true,
            Option::None => false,
        };
        if !some {
            return false;
        }
        i += 1;
    }
    true
}

fn unwrap_fields(f: &Vec<(String, Option<String>)>) -> (r: Vec<(String, String)>)
    requires
        forall|i: int| 0 <= i < f@.len() ==> f@[i].1 is Some,
    ensures
        r@ == f@.map_values(|p: (String, Option<String>)| (p.0, p.1->Some_0)),
{
    let mut out: Vec<(String, String)> = Vec::new();
    let mut i: usize = 0;
    while i < f.len()
        invariant
            i <= f@.len(),
            forall|j: int| 0 <= j < f@.len() ==> f@[j].1 is Some,
            out@ =~= f@.subrange(0, i as int).map_values(
                |p: (String, Option<String>)| (p.0, p.1->Some_0),
            ),
        decreases f@.len() - i,
    {
        let key = f[i].0.clone();
        let value = match &f[i].1 {
            Option::Some(v) => v.clone(),
            Option::None => String::new(),
        };
        let ghost out0 = out@;
        out.push((key, value));
        proof {
            assert(out@ =~= f@.subrange(0, i + 1).map_values(
                |p: (String, Option<String>)| (p.0, p.1->Some_0),
            ));
        }
        i += 1;
    }
    proof {
        assert(f@.subrange(0, f@.len() as int) =~= f@);
    }
    out
}

/// A copy of a key/value record.
pub fn copy_pairs(kv: &Vec<(String, String)>) -> (r: Vec<(String, String)>)
    ensures
        r@ == kv@,
{
    let mut out: Vec<(String, String)> = Vec::new();
    let mut i: usize = 0;
    while i < kv.len()
        invariant
            i <= kv@.len(),
            out@ =~= kv@.subrange(0, i as int),
        decreases kv@.len() - i,
    {
        let k = kv[i].0.clone();
        let v = kv[i].1.clone();
        out.push((k, v));
        proof {
            assert(out@ =~= kv@.subrange(0, i + 1));
        }
        i += 1;
    }
    proof {
        assert(out@ =~= kv@);
    }
    out
}

/// Expands the template shell once per record, substituting each
/// record's fields, and concatenates the instances in record order:
/// exactly the model's expansion.
pub fn expand_records(shell: &str, kvs: &Vec<Vec<(String, String)>>) -> (r: String)
    ensures
        r@ == crate::model::sp_expand(kvs_pairs_view(kvs@), shell@, 0),
{
    let mut out: Vec<char> = Vec::new();
    let mut i: usize = 0;
    while i < kvs.len()
        invariant
            i <= kvs@.len(),
            crate::model::sp_expand(kvs_pairs_view(kvs@), shell@, 0) =~= out@
                + crate::model::sp_expand(kvs_pairs_view(kvs@), shell@, i as int),
        decreases kvs@.len() - i,
    {
        let kv = copy_pairs(&kvs[i]);
        let instance = crate::utils::kv_replace(kv, from_chars(&to_chars(shell)));
        push_all(&mut out, &to_chars(instance.as_str()));
        proof {
            assert(kvs_pairs_view(kvs@)[i as int] == pairs_view(kvs@[i as int]@));
            assert(crate::model::sp_expand(kvs_pairs_view(kvs@), shell@, 0) =~= out@
                + crate::model::sp_expand(kvs_pairs_view(kvs@), shell@, i + 1));
        }
        i += 1;
    }
    from_chars(&out)
}

/// The reserved keys that make a record an entry.
pub open spec fn entry_key() -> Seq<char> {
    "--entry-path"@
}

pub open spec fn result_key() -> Seq<char> {
    "--result-path"@
}

/// Reads a record's reserved entry keys: whether either is present,
/// and the last value each carries (empty when absent).
pub fn entry_paths(kv: &Vec<(String, String)>) -> (r: (bool, String, String))
    ensures
        r.0 == (crate::frontmatter::has_field_seq(pairs_view(kv@), entry_key())
            || crate::frontmatter::has_field_seq(pairs_view(kv@), result_key())),
        r.1@ == crate::model::sp_last_value(pairs_view(kv@), entry_key(), pairs_view(kv@).len() as int),
        r.2@ == crate::model::sp_last_value(pairs_view(kv@), result_key(), pairs_view(kv@).len() as int),
{
    let ek = to_chars("--entry-path");
    let rk = to_chars("--result-path");
    let mut is_entry = false;
    let mut entry = String::new();
    let mut result = String::new();
    let mut i: usize = 0;
    while i < kv.len()
        invariant
            i <= kv@.len(),
            ek@ == entry_key(),
            rk@ == result_key(),
            entry@ == crate::model::sp_last_value(pairs_view(kv@), entry_key(), i as int),
            result@ == crate::model::sp_last_value(pairs_view(kv@), result_key(), i as int),
            is_entry == exists|j: int|
                0 <= j < i && ((#[trigger] pairs_view(kv@)[j]).0 == entry_key()
                    || pairs_view(kv@)[j].0 == result_key()),
        decreases kv@.len() - i,
    {
        let k = to_chars(kv[i].0.as_str());
        proof {
            assert(pairs_view(kv@)[i as int] == (kv@[i as int].0@, kv@[i as int].1@));
        }
        if crate::store::chars_eq(&k, &ek) {
            entry = from_chars(&to_chars(kv[i].1.as_str()));
            is_entry = true;
            proof {
                assert(pairs_view(kv@)[i as int].0 == entry_key());
                assert(entry_key() != result_key()) by {
                    reveal_strlit("--entry-path");
                    reveal_strlit("--result-path");
                    assert(entry_key().len() == 12);
                    assert(result_key().len() == 13);
                }
                assert(crate::model::sp_last_value(pairs_view(kv@), entry_key(), i + 1)
                    == pairs_view(kv@)[i as int].1);
                assert(crate::model::sp_last_value(pairs_view(kv@), result_key(), i + 1)
                    == crate::model::sp_last_value(pairs_view(kv@), result_key(), i as int));
            }
        } else if crate::store::chars_eq(&k, &rk) {
            result = from_chars(&to_chars(kv[i].1.as_str()));
            is_entry = true;
            proof {
                assert(pairs_view(kv@)[i as int].0 == result_key());
                assert(crate::model::sp_last_value(pairs_view(kv@), result_key(), i + 1)
                    == pairs_view(kv@)[i as int].1);
                assert(crate::model::sp_last_value(pairs_view(kv@), entry_key(), i + 1)
                    == crate::model::sp_last_value(pairs_view(kv@), entry_key(), i as int));
            }
        } else {
            proof {
                assert(pairs_view(kv@)[i as int].0 != entry_key());
                assert(pairs_view(kv@)[i as int].0 != result_key());
                assert(crate::model::sp_last_value(pairs_view(kv@), entry_key(), i + 1)
                    == crate::model::sp_last_value(pairs_view(kv@), entry_key(), i as int));
                assert(crate::model::sp_last_value(pairs_view(kv@), result_key(), i + 1)
                    == crate::model::sp_last_value(pairs_view(kv@), result_key(), i as int));
            }
        }
        i += 1;
    }
    proof {
        if is_entry {
            let j = choose|j: int|
                0 <= j < i && ((#[trigger] pairs_view(kv@)[j]).0 == entry_key()
                    || pairs_view(kv@)[j].0 == result_key());
            assert(0 <= j < pairs_view(kv@).len());
        } else {
            assert forall|j: int| 0 <= j < pairs_view(kv@).len() implies !((#[trigger] pairs_view(
                kv@,
            )[j]).0 == entry_key() || pairs_view(kv@)[j].0 == result_key()) by {}
        }
    }
    (is_entry, entry, result)
}

/// No component, template or markdown marker at all: the premise of the
/// identity law.
pub open spec fn no_markers(s: Seq<char>) -> bool {
    !contains_seq(s, crate::scan::md_close()) && crate::scan::no_tag(s, false)
        && crate::scan::no_tag(s, true) && crate::scan::no_template(s)
}

/// The view of an optional caller-supplied slot content.
pub open spec fn opt_str_view(o: Option<String>) -> Option<Seq<char>> {
    match o {
        Option::Some(v) => Some(v@),
        Option::None => None,
    }
}

/// The view of an optional slot content.
pub open spec fn opt_chars_view(o: Option<Vec<char>>) -> Option<Seq<char>> {
    match o {
        Option::Some(v) => Some(v@),
        Option::None => None,
    }
}

/// An empty diagnostic and write list, as the model sees it.
proof fn lemma_empty_views(r: Resolved)
    requires
        r.errors@.len() == 0,
        r.writes@.len() == 0,
    ensures
        res_view(r).errs == Seq::<crate::model::SpErr>::empty(),
        res_view(r).writes == Seq::<crate::model::SpWrite>::empty(),
{
    assert(crate::model::errs_view(r.errors@) =~= Seq::<crate::model::SpErr>::empty());
    assert(crate::model::writes_view(r.writes@) =~= Seq::<crate::model::SpWrite>::empty());
}

/// What a single-diagnostic result looks like to the model.
proof fn lemma_single_res(r: Resolved, et: ErrorType, item: WithItem, path: Seq<char>)
    requires
        r.text@ == Seq::<char>::empty(),
        r.errors@.len() == 1,
        err_is(r.errors@[0], et, item, path),
        r.writes@.len() == 0,
        !r.math_used,
    ensures
        res_view(r) == crate::model::sp_fail(
            seq![crate::model::SpErr { et, item, path }],
        ),
{
    assert(crate::model::errs_view(r.errors@) =~= seq![
        crate::model::SpErr { et, item, path },
    ]);
    assert(crate::model::writes_view(r.writes@) =~= Seq::<crate::model::SpWrite>::empty());
}

fn single_error(e: ProcessError) -> (r: Resolved)
    ensures
        r.text@ == Seq::<char>::empty(),
        r.errors@.len() == 1,
        r.errors@[0] == e,
        r.writes@.len() == 0,
        !r.math_used,
{
    let r = Resolved { text: Vec::new(), errors: vec![e], math_used: false, writes: Vec::new() };
    proof {
        assert(r.text@ =~= Seq::<char>::empty());
    }
    r
}

/// Resolves one component reference: the dotted name maps to a
/// definition file, the history is checked and extended, `${key}`
/// tokens are substituted from the attributes, wrapping use splices the
/// caller's content into the slot region, and the substituted body is
/// resolved recursively.  Any failure yields empty text plus one
/// diagnostic, so a failing component never aborts the containing page.
fn get_component_core(
    store: &FileStore,
    cfg: &BuildConfig,
    name: Vec<char>,
    targets: Vec<(String, String)>,
    slot_content: Option<Vec<char>>,
    wrapping: bool,
    hist: Hist,
) -> (r: Resolved)
    ensures
        hist_view(hist).contains(crate::paths::spec_component_path(name@)) ==> r.text@.len() == 0
            && r.errors@.len() == 1 && err_is(
            r.errors@[0],
            ErrorType::Circular,
            WithItem::Component,
            crate::paths::spec_component_path(name@),
        ) && r.writes@.len() == 0 && !r.math_used,
        !hist_view(hist).contains(crate::paths::spec_component_path(name@)) && store.lookup(
            crate::paths::spec_component_path(name@),
        ) is None ==> r.text@.len() == 0 && r.errors@.len() == 1 && err_is(
            r.errors@[0],
            ErrorType::NotFound,
            WithItem::Component,
            crate::paths::spec_component_path(name@),
        ) && r.writes@.len() == 0 && !r.math_used,
        !hist_view(hist).contains(crate::paths::spec_component_path(name@)) && (store.lookup(
            crate::paths::spec_component_path(name@),
        ) matches Some(body) && wrapping && !has_slot_pair(body)) ==> r.text@.len() == 0
            && r.errors@.len() == 1 && err_is(
            r.errors@[0],
            ErrorType::Syntax,
            WithItem::Component,
            crate::paths::spec_component_path(name@),
        ) && r.writes@.len() == 0 && !r.math_used,
        res_view(r) == crate::model::sp_component(
            *store,
            *cfg,
            name@,
            pairs_view(targets@),
            opt_chars_view(slot_content),
            wrapping,
            hist_view(hist),
        ),
    decreases store_free(*store, hist_view(hist)), 1int, 0int,
{
    let path = crate::paths::component_path(&name);
    if hist.contains_path(&path) {
        let r = single_error(
            ProcessError {
                error_type: ErrorType::Circular,
                item: WithItem::Component,
                path: crate::paths::path_string(&path),
                message: None,
            },
        );
        proof {
            lemma_single_res(r, ErrorType::Circular, WithItem::Component, path@);
        }
        return r;
    }
    let body = match store.read(&path) {
        Some(b) => b,
        None => {
            let r = single_error(
                ProcessError {
                    error_type: ErrorType::NotFound,
                    item: WithItem::Component,
                    path: crate::paths::path_string(&path),
                    message: None,
                },
            );
            proof {
                lemma_single_res(r, ErrorType::NotFound, WithItem::Component, path@);
            }
            return r;
        },
    };
    if wrapping {
        let so = to_chars("<slot>");
        let sc = to_chars("</slot>");
        let open_found = crate::text::find_from(&body, &so, 0);
        let close_found = crate::text::find_from(&body, &sc, 0);
        proof {
            crate::text::lemma_spec_find_exists(body@, so@);
            crate::text::lemma_spec_find_exists(body@, sc@);
            crate::text::lemma_spec_find(body@, so@, 0);
            crate::text::lemma_spec_find(body@, sc@, 0);
        }
        let missing = match (open_found, close_found) {
            (Some(_), Some(_)) => false,
            _ => true,
        };
        proof {
            if !missing {
                assert(has_slot_pair(body@));
            }
        }
        if missing {
            proof {
                assert(!has_slot_pair(body@));
            }
            let r = single_error(
                ProcessError {
                    error_type: ErrorType::Syntax,
                    item: WithItem::Component,
                    path: crate::paths::path_string(&path),
                    message: Some(
                        from_chars(
                            &to_chars(
                                "The component does not contain a proper <slot></slot> tag.",
                            ),
                        ),
                    ),
                },
            );
            proof {
                lemma_single_res(r, ErrorType::Syntax, WithItem::Component, path@);
            }
            return r;
        }
    }
    let mut h2 = hist.duplicate();
    h2.push_path(copy_chars(&path));
    let ghost targetsv = pairs_view(targets@);
    let st = crate::utils::kv_replace(targets, from_chars(&body));
    let st_chars = to_chars(st.as_str());
    let st2: Vec<char> = if wrapping {
        match &slot_content {
            Option::Some(c) => substitute_slot(&st_chars, c),
            Option::None => st_chars,
        }
    } else {
        st_chars
    };
    proof {
        crate::store::lemma_free_count_push_lt(store.files@, hist_view(hist), path@);
        assert(st@ == spec_kv_replace(targetsv, body@, 0));
        assert(st2@ == (if wrapping {
            match opt_chars_view(slot_content) {
                Some(c) => spec_substitute_slot(st@, c),
                None => st@,
            }
        } else {
            st@
        }));
        assert(hist_view(h2) == hist_view(hist).push(path@));
    }
    let res = page_core(store, cfg, st2, h2);
    proof {
        assert(res_view(res) == crate::model::sp_component(
            *store,
            *cfg,
            name@,
            targetsv,
            opt_chars_view(slot_content),
            wrapping,
            hist_view(hist),
        ));
    }
    res
}

/// One scan-and-replace pass for component references of one form,
/// from `pos` on.  Each match is resolved once and replaced in place;
/// nested references are handled by the recursion inside the resolver,
/// not by re-scanning this pass's output; text outside matches is
/// kept.  The output text and math flag are exactly the model's pass.
#[verifier::rlimit(80)]
fn comp_pass_rec(
    store: &FileStore,
    cfg: &BuildConfig,
    text: &Vec<char>,
    pos: usize,
    self_closing: bool,
    hist: &Hist,
) -> (r: Resolved)
    requires
        pos <= text@.len(),
    ensures
        res_view(r) == crate::model::sp_comp_pass(
            *store,
            *cfg,
            text@,
            pos as int,
            self_closing,
            hist_view(*hist),
        ),
    decreases store_free(*store, hist_view(*hist)), 2int, text@.len() - pos,
{
    match crate::scan::find_next_tag(text, pos, self_closing) {
        None => {
            proof {
                crate::model::lemma_first_tag_none(text@, pos as int, self_closing);
            }
            let out = copy_range(text, pos, text.len());
            let r = Resolved {
                text: out,
                errors: Vec::new(),
                math_used: false,
                writes: Vec::new(),
            };
            proof {
                lemma_empty_views(r);
            }
            r
        },
        Some(m) => {
            proof {
                crate::model::lemma_first_tag_some(
                    text@,
                    pos as int,
                    m.start as int,
                    m.name_end as int,
                    m.end as int,
                    self_closing,
                );
                assert(crate::scan::tag_match(text@, m.start as int, self_closing) is Some);
            }
            let name = copy_range(text, m.start + 1, m.name_end);
            let found = copy_range(text, m.start, m.end);
            let mut errors: Vec<ProcessError> = Vec::new();
            let targets = match crate::utils::get_targets_kv(
                from_chars(&name).as_str(),
                from_chars(&found).as_str(),
            ) {
                Ok(t) => t,
                Err(e) => {
                    errors.push(e);
                    Vec::new()
                },
            };
    let ghost terrv: Seq<crate::model::SpErr> = if crate::utils::scan_attrs(
                crate::utils::attr_region(name@, found@),
                0,
            ) is None {
                seq![
                    crate::model::SpErr {
                        et: ErrorType::Syntax,
                        item: WithItem::Component,
                        path: name@,
                    },
                ]
            } else {
                Seq::empty()
            };
            proof {
                if crate::utils::scan_attrs(
                    crate::utils::attr_region(name@, found@),
                    0,
                ) is None {
                    assert(pairs_view(targets@) =~= Seq::<(Seq<char>, Seq<char>)>::empty());
                    assert(crate::model::errs_view(errors@) =~= terrv);
                } else {
                    assert(crate::model::errs_view(errors@) =~= terrv);
                }
            }
            let (slot, next_pos): (Option<Vec<char>>, usize) = if self_closing {
                (None, m.end)
            } else {
                let mut end_tag = to_chars("</");
                push_all(&mut end_tag, &name);
                push_all(&mut end_tag, &to_chars(">"));
                proof {
                    assert(end_tag@ =~= crate::model::end_tag_of(name@));
                }
                let n = text.len();
                match crate::text::find_from(text, &end_tag, m.end) {
                    Some(c) => {
                        proof {
                            crate::text::lemma_spec_find(text@, end_tag@, m.end as int);
                            assert(c + end_tag@.len() <= n);
                        }
                        if c > m.end {
                            (Some(copy_range(text, m.end, c)), c + end_tag.len())
                        } else {
                            (None, c + end_tag.len())
                        }
                    },
                    None => (None, m.end),
                }
            };
            let ghost namev = name@;
            let ghost targetsv = pairs_view(targets@);
            let ghost slotv = opt_chars_view(slot);
            let mut res = get_component_core(
                store,
                cfg,
                name,
                targets,
                slot,
                !self_closing,
                hist.duplicate(),
            );
            let ghost resv = res_view(res);
            let mut rest = comp_pass_rec(store, cfg, text, next_pos, self_closing, hist);
            let ghost restv = res_view(rest);
            let mut out = copy_range(text, pos, m.start);
            push_all(&mut out, &res.text);
            push_all(&mut out, &rest.text);
            errors.append(&mut res.errors);
            errors.append(&mut rest.errors);
            let mut writes = res.writes;
            writes.append(&mut rest.writes);
            let math = res.math_used || rest.math_used;
            let r = Resolved { text: out, errors, math_used: math, writes };
            proof {
                let sp = crate::model::sp_comp_pass(
                    *store,
                    *cfg,
                    text@,
                    pos as int,
                    self_closing,
                    hist_view(*hist),
                );
                assert(resv == crate::model::sp_component(
                    *store,
                    *cfg,
                    namev,
                    targetsv,
                    slotv,
                    !self_closing,
                    hist_view(*hist),
                ));
                assert(r.text@ =~= text@.subrange(pos as int, m.start as int) + resv.text
                    + restv.text);
                assert(crate::model::errs_view(r.errors@) =~= terrv + resv.errs + restv.errs);
                assert(crate::model::writes_view(r.writes@) =~= resv.writes + restv.writes);
                assert(res_view(r) == sp);
            }
            r
        },
    }
}

/// One scan-and-replace pass for template references, from `pos` on:
/// each match replaced in place by the named template's resolution,
/// text outside matches kept.  The output text and math flag are
/// exactly the model's pass.
#[verifier::rlimit(60)]
fn tpl_pass_rec(
    store: &FileStore,
    cfg: &BuildConfig,
    text: &Vec<char>,
    pos: usize,
    hist: &Hist,
) -> (r: Resolved)
    requires
        pos <= text@.len(),
    ensures
        res_view(r) == crate::model::sp_tpl_pass(
            *store,
            *cfg,
            text@,
            pos as int,
            hist_view(*hist),
        ),
    decreases store_free(*store, hist_view(*hist)), 2int, text@.len() - pos,
{
    match crate::scan::find_next_template(text, pos) {
        None => {
            proof {
                crate::model::lemma_first_template_none(text@, pos as int);
            }
            let out = copy_range(text, pos, text.len());
            let r = Resolved {
                text: out,
                errors: Vec::new(),
                math_used: false,
                writes: Vec::new(),
            };
            proof {
                lemma_empty_views(r);
            }
            r
        },
        Some(m) => {
            proof {
                crate::model::lemma_first_template_some(
                    text@,
                    pos as int,
                    m.start as int,
                    m.name_end as int,
                    m.end as int,
                );
                assert(crate::scan::template_match(text@, m.start as int) is Some);
            }
            let name = copy_range(text, m.name_start, m.name_end);
            let ghost namev = name@;
            let mut res = get_template_core(store, cfg, name, hist.duplicate());
            let ghost resv = res_view(res);
            let mut rest = tpl_pass_rec(store, cfg, text, m.end, hist);
            let ghost restv = res_view(rest);
            let mut out = copy_range(text, pos, m.start);
            push_all(&mut out, &res.text);
            push_all(&mut out, &rest.text);
            let mut errors = res.errors;
            errors.append(&mut rest.errors);
            let mut writes = res.writes;
            writes.append(&mut rest.writes);
            let math = res.math_used || rest.math_used;
            let r = Resolved { text: out, errors, math_used: math, writes };
            proof {
                assert(resv == crate::model::sp_template(
                    *store,
                    *cfg,
                    namev,
                    hist_view(*hist),
                ));
                assert(r.text@ =~= text@.subrange(pos as int, m.start as int) + resv.text
                    + restv.text);
                assert(crate::model::errs_view(r.errors@) =~= resv.errs + restv.errs);
                assert(crate::model::writes_view(r.writes@) =~= resv.writes + restv.writes);
                assert(res_view(r) == crate::model::sp_tpl_pass(
                    *store,
                    *cfg,
                    text@,
                    pos as int,
                    hist_view(*hist),
                ));
            }
            r
        },
    }
}

/// Loads a template's structured data: the JSON array when the JSON
/// data file exists, else the markdown manifest.  On success the usable
/// records come with their soft per-record diagnostics; a load failure
/// yields the single diagnostic the model names.
fn load_template_records(store: &FileStore, name: &Vec<char>) -> (r: Result<
    (Vec<Vec<(String, String)>>, Vec<ProcessError>),
    ProcessError,
>)
    ensures
        r is Ok <==> crate::model::sp_data_err(*store, name@) is None,
        r matches Ok(p) ==> Some(kvs_pairs_view(p.0@)) == crate::model::sp_template_records(
            *store,
            name@,
        ) && crate::model::errs_view(p.1@) == crate::model::sp_soft_errs(*store, name@),
        r matches Err(e) ==> crate::model::sp_data_err(*store, name@) == Some(
            crate::model::err_view(e),
        ),
{
    let jpath = crate::paths::data_json_path(name);
    match store.read(&jpath) {
        Some(data) => {
            match crate::json::json_records(from_chars(&data).as_str()) {
                Err(msg) => {
                    let e = ProcessError {
                        error_type: ErrorType::Syntax,
                        item: WithItem::Data,
                        path: crate::paths::path_string(&jpath),
                        message: Some(msg),
                    };
                    proof {
                        assert(crate::model::sp_data_err(*store, name@) == Some(
                            crate::model::err_view(e),
                        ));
                    }
                    Err(e)
                },
                Ok(None) => {
                    let e = ProcessError {
                        error_type: ErrorType::Syntax,
                        item: WithItem::Data,
                        path: crate::paths::path_string(&jpath),
                        message: Some(from_chars(&to_chars("JSON wasn't an array"))),
                    };
                    proof {
                        assert(crate::model::sp_data_err(*store, name@) == Some(
                            crate::model::err_view(e),
                        ));
                    }
                    Err(e)
                },
                Ok(Some(raws)) => {
                    let ghost rawsv = raw_records_view(raws@);
                    let (kvs, errs) = records_to_kv(raws, from_chars(&jpath).as_str());
                    proof {
                        assert(crate::model::sp_data_err(*store, name@) is None);
                        assert(Some(kvs_pairs_view(kvs@)) == crate::model::sp_template_records(
                            *store,
                            name@,
                        ));
                        assert(crate::model::errs_view(errs@) == crate::model::sp_soft_errs(
                            *store,
                            name@,
                        ));
                    }
                    Ok((kvs, errs))
                },
            }
        },
        None => {
            match crate::frontmatter::load_frontmatter_data(store, from_chars(name).as_str()) {
                Ok((records, errs)) => {
                    proof {
                        assert(crate::model::sp_data_err(*store, name@) is None);
                        assert(Some(kvs_pairs_view(records@))
                            == crate::model::sp_template_records(*store, name@));
                        assert(crate::model::errs_view(errs@) == crate::model::sp_soft_errs(
                            *store,
                            name@,
                        ));
                    }
                    Ok((records, errs))
                },
                Err(mut es) => {
                    let e = es.remove(0);
                    proof {
                        assert(crate::model::sp_data_err(*store, name@) == Some(
                            crate::model::err_view(e),
                        ));
                    }
                    Err(e)
                },
            }
        },
    }
}

/// Resolves one template reference: the shell and its structured data
/// are loaded fresh, with one diagnostic per missing or unreadable
/// file; on success the shell is expanded once per record in record
/// order, entry records write their own standalone output, and the
/// concatenation is resolved recursively under the extended history.
/// Text, math flag, diagnostics and queued writes are exactly the
/// model's template resolution.
#[verifier::rlimit(80)]
fn get_template_core(store: &FileStore, cfg: &BuildConfig, name: Vec<char>, hist: Hist) -> (r:
    Resolved)
    ensures
        res_view(r) == crate::model::sp_template(*store, *cfg, name@, hist_view(hist)),
        hist_view(hist).contains(crate::paths::spec_template_path(name@)) ==> r.text@.len() == 0
            && r.errors@.len() == 1 && err_is(
            r.errors@[0],
            ErrorType::Circular,
            WithItem::Template,
            crate::paths::spec_template_path(name@),
        ) && r.writes@.len() == 0 && !r.math_used,
        !hist_view(hist).contains(crate::paths::spec_template_path(name@)) && store.lookup(
            crate::paths::spec_template_path(name@),
        ) is None ==> r.text@.len() == 0 && r.errors@.len() >= 1 && err_is(
            r.errors@[0],
            ErrorType::NotFound,
            WithItem::Template,
            crate::paths::spec_template_path(name@),
        ) && r.writes@.len() == 0 && !r.math_used,
        !hist_view(hist).contains(crate::paths::spec_template_path(name@)) && store.has(
            crate::paths::spec_template_path(name@),
        ) && (store.lookup(crate::paths::spec_data_json_path(name@)) matches Some(data)
            && !crate::json::json_parses(data)) ==> r.text@.len() == 0 && r.errors@.len() == 1
            && err_is(
            r.errors@[0],
            ErrorType::Syntax,
            WithItem::Data,
            crate::paths::spec_data_json_path(name@),
        ) && r.writes@.len() == 0 && !r.math_used,
        !hist_view(hist).contains(crate::paths::spec_template_path(name@)) && store.has(
            crate::paths::spec_template_path(name@),
        ) && (store.lookup(crate::paths::spec_data_json_path(name@)) matches Some(data)
            && crate::json::json_parses(data) && crate::json::json_records_of(data) is None)
            ==> r.text@.len() == 0 && r.errors@.len() == 1 && err_is(
            r.errors@[0],
            ErrorType::Syntax,
            WithItem::Data,
            crate::paths::spec_data_json_path(name@),
        ) && r.writes@.len() == 0 && !r.math_used,
        !hist_view(hist).contains(crate::paths::spec_template_path(name@)) && store.has(
            crate::paths::spec_template_path(name@),
        ) && store.lookup(crate::paths::spec_data_json_path(name@)) is None && store.lookup(
            crate::paths::spec_data_toml_path(name@),
        ) is None ==> r.text@.len() == 0 && r.errors@.len() == 1 && err_is(
            r.errors@[0],
            ErrorType::NotFound,
            WithItem::Data,
            crate::paths::spec_data_toml_path(name@),
        ) && r.writes@.len() == 0 && !r.math_used,
    decreases store_free(*store, hist_view(hist)), 1int, 0int,
{
    let tpath = crate::paths::template_path(&name);
    if hist.contains_path(&tpath) {
        let r = single_error(
            ProcessError {
                error_type: ErrorType::Circular,
                item: WithItem::Template,
                path: crate::paths::path_string(&tpath),
                message: None,
            },
        );
        proof {
            lemma_single_res(r, ErrorType::Circular, WithItem::Template, tpath@);
        }
        return r;
    }
    let shell_opt = store.read(&tpath);
    let data_res = load_template_records(store, &name);
    let (shell, kvs, mut errors) = match (shell_opt, data_res) {
        (Some(shell), Ok(d)) => (shell, d.0, d.1),
        (shell_opt2, data_res2) => {
            let mut errors: Vec<ProcessError> = Vec::new();
            let ghost shell_missing = shell_opt2 is None;
            match shell_opt2 {
                Some(_) => {},
                None => {
                    errors.push(
                        ProcessError {
                            error_type: ErrorType::NotFound,
                            item: WithItem::Template,
                            path: crate::paths::path_string(&tpath),
                            message: Some(from_chars(&to_chars("Failed to read template file"))),
                        },
                    );
                },
            }
            match data_res2 {
                Ok(_) => {},
                Err(e) => {
                    errors.push(e);
                },
            }
            let r = Resolved {
                text: Vec::new(),
                errors,
                math_used: false,
                writes: Vec::new(),
            };
            proof {
                let shell_err: Seq<crate::model::SpErr> = if store.lookup(tpath@) is None {
                    seq![
                        crate::model::SpErr {
                            et: ErrorType::NotFound,
                            item: WithItem::Template,
                            path: tpath@,
                        },
                    ]
                } else {
                    Seq::empty()
                };
                let data_err: Seq<crate::model::SpErr> = match crate::model::sp_data_err(
                    *store,
                    name@,
                ) {
                    Some(de) => seq![de],
                    None => Seq::empty(),
                };
                assert(crate::model::errs_view(r.errors@) =~= shell_err + data_err);
                assert(crate::model::writes_view(r.writes@) =~= Seq::<
                    crate::model::SpWrite,
                >::empty());
                assert(r.text@ =~= Seq::<char>::empty());
                assert(res_view(r) == crate::model::sp_template(
                    *store,
                    *cfg,
                    name@,
                    hist_view(hist),
                ));
            }
            return r;
        },
    };
    let ghost soft = crate::model::errs_view(errors@);
    proof {
        assert(Some(kvs_pairs_view(kvs@)) == crate::model::sp_template_records(*store, name@));
        assert(soft == crate::model::sp_soft_errs(*store, name@));
    }
    let mut h2 = hist.duplicate();
    h2.push_path(copy_chars(&tpath));
    let expanded = expand_records(from_chars(&shell).as_str(), &kvs);
    let ghost kvsv = kvs_pairs_view(kvs@);
    let ghost h2v = hist_view(h2);
    let mut writes: Vec<OutputFile> = Vec::new();
    let mut i: usize = 0;
    while i < kvs.len()
        invariant
            i <= kvs@.len(),
            hist_view(h2) == hist_view(hist).push(tpath@),
            h2v == hist_view(h2),
            kvsv == kvs_pairs_view(kvs@),
            tpath@ == crate::paths::spec_template_path(name@),
            store.lookup(tpath@) is Some,
            shell@ == store.lookup(tpath@)->Some_0,
            !hist_view(hist).contains(tpath@),
            Some(kvsv) == crate::model::sp_template_records(*store, name@),
            crate::model::sp_data_err(*store, name@) is None,
            soft == crate::model::sp_soft_errs(*store, name@),
            expanded@ == crate::model::sp_expand(kvsv, shell@, 0),
            crate::model::errs_view(errors@) + crate::model::sp_entries(
                *store,
                *cfg,
                name@,
                kvsv,
                i as int,
                h2v,
            ).errs =~= soft + crate::model::sp_entries(*store, *cfg, name@, kvsv, 0, h2v).errs,
            crate::model::writes_view(writes@) + crate::model::sp_entries(
                *store,
                *cfg,
                name@,
                kvsv,
                i as int,
                h2v,
            ).writes =~= crate::model::sp_entries(*store, *cfg, name@, kvsv, 0, h2v).writes,
        decreases kvs@.len() - i,
    {
        let (is_entry, entry, result) = entry_paths(&kvs[i]);
        proof {
            assert(pairs_view(kvs@[i as int]@) == kvsv[i as int]);
        }
        if is_entry {
            proof {
                crate::store::lemma_free_count_push_lt(store.files@, hist_view(hist), tpath@);
            }
            let (mut e_errs, mut e_writes) = process_entry_core(
                store,
                cfg,
                &name,
                to_chars(entry.as_str()),
                to_chars(result.as_str()),
                copy_pairs(&kvs[i]),
                h2.duplicate(),
            );
            let ghost eev = crate::model::errs_view(e_errs@);
            let ghost ewv = crate::model::writes_view(e_writes@);
            errors.append(&mut e_errs);
            writes.append(&mut e_writes);
            proof {
                let ent = crate::model::sp_entry(
                    *store,
                    *cfg,
                    name@,
                    crate::model::sp_last_value(
                        kvsv[i as int],
                        entry_key(),
                        kvsv[i as int].len() as int,
                    ),
                    crate::model::sp_last_value(
                        kvsv[i as int],
                        result_key(),
                        kvsv[i as int].len() as int,
                    ),
                    kvsv[i as int],
                    h2v,
                );
                assert(eev == ent.errs);
                assert(ewv == ent.writes);
                assert(crate::model::sp_entries(*store, *cfg, name@, kvsv, i as int, h2v).errs
                    =~= ent.errs + crate::model::sp_entries(
                    *store,
                    *cfg,
                    name@,
                    kvsv,
                    i + 1,
                    h2v,
                ).errs);
                assert(crate::model::sp_entries(*store, *cfg, name@, kvsv, i as int, h2v).writes
                    =~= ent.writes + crate::model::sp_entries(
                    *store,
                    *cfg,
                    name@,
                    kvsv,
                    i + 1,
                    h2v,
                ).writes);
                assert(crate::model::errs_view(errors@) + crate::model::sp_entries(
                    *store,
                    *cfg,
                    name@,
                    kvsv,
                    i + 1,
                    h2v,
                ).errs =~= soft + crate::model::sp_entries(
                    *store,
                    *cfg,
                    name@,
                    kvsv,
                    0,
                    h2v,
                ).errs);
                assert(crate::model::writes_view(writes@) + crate::model::sp_entries(
                    *store,
                    *cfg,
                    name@,
                    kvsv,
                    i + 1,
                    h2v,
                ).writes =~= crate::model::sp_entries(
                    *store,
                    *cfg,
                    name@,
                    kvsv,
                    0,
                    h2v,
                ).writes);
            }
        } else {
            proof {
                assert(crate::model::sp_entries(*store, *cfg, name@, kvsv, i as int, h2v)
                    == crate::model::sp_entries(*store, *cfg, name@, kvsv, i + 1, h2v));
            }
        }
        i += 1;
    }
    let ghost entv = crate::model::sp_entries(*store, *cfg, name@, kvsv, 0, h2v);
    proof {
        assert(crate::model::sp_entries(*store, *cfg, name@, kvsv, i as int, h2v).errs =~= Seq::<
            crate::model::SpErr,
        >::empty());
        assert(crate::model::sp_entries(*store, *cfg, name@, kvsv, i as int, h2v).writes
            =~= Seq::<crate::model::SpWrite>::empty());
        assert(crate::model::errs_view(errors@) =~= soft + entv.errs);
        assert(crate::model::writes_view(writes@) =~= entv.writes);
        crate::store::lemma_free_count_push_lt(store.files@, hist_view(hist), tpath@);
    }
    let mut res = page_core(store, cfg, to_chars(expanded.as_str()), h2);
    let ghost pgv = res_view(res);
    errors.append(&mut res.errors);
    writes.append(&mut res.writes);
    let r = Resolved { text: res.text, errors, math_used: res.math_used, writes };
    proof {
        assert(crate::model::errs_view(r.errors@) =~= soft + entv.errs + pgv.errs);
        assert(crate::model::writes_view(r.writes@) =~= entv.writes + pgv.writes);
        assert(res_view(r) == crate::model::sp_template(*store, *cfg, name@, hist_view(hist)));
    }
    r
}

/// A leading run of `/` characters removed.
pub open spec fn trim_lead_slash(s: Seq<char>) -> Seq<char>
    decreases s.len(),
{
    if s.len() > 0 && s[0] == '/' {
        trim_lead_slash(s.drop_first())
    } else {
        s
    }
}

fn trim_lead_slash_exec(s: &Vec<char>, i: usize) -> (r: Vec<char>)
    requires
        i <= s@.len(),
        trim_lead_slash(s@) == trim_lead_slash(s@.skip(i as int)),
    ensures
        r@ == trim_lead_slash(s@),
    decreases s@.len() - i,
{
    if i < s.len() && s[i] == '/' {
        proof {
            assert(s@.skip(i as int)[0] == s@[i as int]);
            assert(s@.skip(i as int).drop_first() =~= s@.skip(i + 1));
        }
        trim_lead_slash_exec(s, i + 1)
    } else {
        let r = copy_range(s, i, s.len());
        proof {
            assert(r@ =~= s@.skip(i as int));
            if i < s@.len() {
                assert(trim_lead_slash(s@.skip(i as int)) == s@.skip(i as int));
            } else {
                assert(s@.skip(i as int).len() == 0);
            }
        }
        r
    }
}

/// The store path of an entry's content file.
pub open spec fn spec_entry_file_path(entry_path: Seq<char>) -> Seq<char> {
    "data/"@ + trim_lead_slash(entry_path)
}

/// The marker a page carries once the live-reload script is in it.
pub open spec fn dev_marker() -> Seq<char> {
    "// * SCRIPT INCLUDED IN DEV MODE"@
}

/// The placeholder the reload script carries for the websocket port.
pub open spec fn port_placeholder() -> Seq<char> {
    "__SIMPLE_WS_PORT_PLACEHOLDER__"@
}

/// Processes one entry record of a template: the designated content
/// file (markdown wrapped in a markdown block, its front matter
/// stripped) is spliced into the frame's `${--content}` placeholder,
/// the record's fields are substituted, the result is resolved under
/// the current branch history and post-processed for the build mode,
/// and one standalone output file is queued at the designated result
/// path.  Both reserved keys must be non-empty, or nothing is written.
/// Diagnostics and queued writes are exactly the model's entry outcome.
fn process_entry_core(
    store: &FileStore,
    cfg: &BuildConfig,
    name: &Vec<char>,
    entry_path: Vec<char>,
    result_path: Vec<char>,
    kv: Vec<(String, String)>,
    hist: Hist,
) -> (r: (Vec<ProcessError>, Vec<OutputFile>))
    ensures
        crate::model::errs_view(r.0@) == crate::model::sp_entry(
            *store,
            *cfg,
            name@,
            entry_path@,
            result_path@,
            pairs_view(kv@),
            hist_view(hist),
        ).errs,
        crate::model::writes_view(r.1@) == crate::model::sp_entry(
            *store,
            *cfg,
            name@,
            entry_path@,
            result_path@,
            pairs_view(kv@),
            hist_view(hist),
        ).writes,
        entry_path@.len() == 0 || result_path@.len() == 0 ==> r.0@.len() == 1 && err_is(
            r.0@[0],
            ErrorType::Other,
            WithItem::Template,
            result_path@,
        ) && (r.0@[0].message matches Some(m) && m@ == "Error occurred in "@ + name@
            + ". The --entry-path and --result-path keys must both be present if either is present."@)
            && r.1@.len() == 0,
        entry_path@.len() > 0 && result_path@.len() > 0 && store.lookup(
            crate::paths::spec_frame_path(name@),
        ) is None ==> r.0@.len() == 1 && err_is(
            r.0@[0],
            ErrorType::NotFound,
            WithItem::Data,
            crate::paths::spec_frame_path(name@),
        ) && r.1@.len() == 0,
        entry_path@.len() > 0 && result_path@.len() > 0 && store.has(
            crate::paths::spec_frame_path(name@),
        ) && store.lookup(spec_entry_file_path(entry_path@)) is None ==> r.0@.len() == 1 && err_is(
            r.0@[0],
            ErrorType::NotFound,
            WithItem::Data,
            spec_entry_file_path(entry_path@),
        ) && r.1@.len() == 0,
        entry_path@.len() > 0 && result_path@.len() > 0 && store.has(
            crate::paths::spec_frame_path(name@),
        ) && store.has(spec_entry_file_path(entry_path@)) ==> r.1@.len() >= 1 && r.1@[r.1@.len()
            - 1].path@ == trim_lead_slash(result_path@),
    decreases store_free(*store, hist_view(hist)), 4int, 0int,
{
    if entry_path.len() == 0 || result_path.len() == 0 {
        let mut msg = to_chars("Error occurred in ");
        push_all(&mut msg, name);
        push_all(
            &mut msg,
            &to_chars(
                ". The --entry-path and --result-path keys must both be present if either is present.",
            ),
        );
        let errs = vec![
            ProcessError {
                error_type: ErrorType::Other,
                item: WithItem::Template,
                path: from_chars(&result_path),
                message: Some(from_chars(&msg)),
            },
        ];
        let writes: Vec<OutputFile> = Vec::new();
        proof {
            assert(crate::model::errs_view(errs@) =~= seq![
                crate::model::SpErr {
                    et: ErrorType::Other,
                    item: WithItem::Template,
                    path: result_path@,
                },
            ]);
            assert(crate::model::writes_view(writes@) =~= Seq::<crate::model::SpWrite>::empty());
        }
        return (errs, writes);
    }
    let mut full_entry = to_chars("data/");
    proof {
        assert(entry_path@.skip(0) =~= entry_path@);
    }
    push_all(&mut full_entry, &trim_lead_slash_exec(&entry_path, 0));
    proof {
        assert(full_entry@ =~= spec_entry_file_path(entry_path@));
    }
    let fpath = crate::paths::frame_path(name);
    let frame = match store.read(&fpath) {
        Some(f) => f,
        None => {
            let errs = vec![
                ProcessError {
                    error_type: ErrorType::NotFound,
                    item: WithItem::Data,
                    path: crate::paths::path_string(&fpath),
                    message: Some(from_chars(&to_chars("Failed to read frame file"))),
                },
            ];
            let writes: Vec<OutputFile> = Vec::new();
            proof {
                assert(crate::model::errs_view(errs@) =~= seq![
                    crate::model::SpErr {
                        et: ErrorType::NotFound,
                        item: WithItem::Data,
                        path: crate::paths::spec_frame_path(name@),
                    },
                ]);
                assert(crate::model::writes_view(writes@) =~= Seq::<
                    crate::model::SpWrite,
                >::empty());
            }
            return (errs, writes);
        },
    };
    let content = match store.read(&full_entry) {
        Some(c) => c,
        None => {
            let errs = vec![
                ProcessError {
                    error_type: ErrorType::NotFound,
                    item: WithItem::Data,
                    path: crate::paths::path_string(&full_entry),
                    message: Some(from_chars(&to_chars("Failed to read data file"))),
                },
            ];
            let writes: Vec<OutputFile> = Vec::new();
            proof {
                assert(crate::model::errs_view(errs@) =~= seq![
                    crate::model::SpErr {
                        et: ErrorType::NotFound,
                        item: WithItem::Data,
                        path: spec_entry_file_path(entry_path@),
                    },
                ]);
                assert(crate::model::writes_view(writes@) =~= Seq::<
                    crate::model::SpWrite,
                >::empty());
            }
            return (errs, writes);
        },
    };
    let md_suffix = to_chars(".md");
    let is_md = entry_path.len() >= md_suffix.len() && crate::text::match_at(
        &entry_path,
        &md_suffix,
        entry_path.len() - md_suffix.len(),
    );
    proof {
        if entry_path@.len() >= md_suffix@.len() {
            assert(contains_at(
                entry_path@,
                entry_path@.len() - md_suffix@.len(),
                md_suffix@,
            ) == crate::model::ends_with(entry_path@, ".md"@));
        }
        assert(is_md == crate::model::ends_with(entry_path@, ".md"@));
    }
    let spliced: Vec<char> = if is_md {
        let body: Vec<char> = match crate::frontmatter::extract_frontmatter(
            from_chars(&content).as_str(),
        ) {
            Ok((_, rem)) => to_chars(rem.as_str()),
            Err(_) => content,
        };
        let mut wrapped = to_chars("<markdown>\n");
        push_all(&mut wrapped, &body);
        push_all(&mut wrapped, &to_chars("</markdown>"));
        crate::text::replace_all(&frame, &to_chars("${--content}"), &wrapped)
    } else {
        crate::text::replace_all(&frame, &to_chars("${--content}"), &content)
    };
    let ghost kvv = pairs_view(kv@);
    let ghost hv = hist_view(hist);
    let final_content = crate::utils::kv_replace(kv, from_chars(&spliced));
    let res = page_core(store, cfg, to_chars(final_content.as_str()), hist);
    let ghost pgv = res_view(res);
    let ghost t = res.text@;
    let ghost tmath = res.math_used;
    let mut errors = res.errors;
    let mut writes = res.writes;
    let mut s = res.text;
    if res.math_used && !cfg.katex_css_disabled {
        s = crate::katex_assets::inject_katex_css(s);
    }
    if cfg.dev {
        s = inject_reload_script(s, cfg);
    }
    let bytes: Vec<u8> = if cfg.dev {
        utf8_bytes(&s)
    } else {
        crate::render::minify_text(from_chars(&s).as_str())
    };
    proof {
        assert(s@ == crate::model::sp_postprocess(*cfg, t, tmath));
        assert(bytes@ == crate::model::sp_out_bytes(*cfg, t, tmath));
        assert(result_path@.skip(0) =~= result_path@);
    }
    let out_path = from_chars(&trim_lead_slash_exec(&result_path, 0));
    writes.push(OutputFile { path: out_path, bytes });
    proof {
        let ent = crate::model::sp_entry(
            *store,
            *cfg,
            name@,
            entry_path@,
            result_path@,
            kvv,
            hv,
        );
        assert(pgv == crate::model::sp_page(
            *store,
            *cfg,
            spec_kv_replace(kvv, spliced@, 0),
            hv,
        ));
        assert(crate::model::errs_view(errors@) == ent.errs);
        assert(crate::model::writes_view(writes@) =~= pgv.writes.push(
            crate::model::SpWrite {
                path: trim_lead_slash(result_path@),
                bytes: crate::model::sp_out_bytes(*cfg, pgv.text, pgv.math),
            },
        ));
        assert(crate::model::writes_view(writes@) == ent.writes);
    }
    (errors, writes)
}

/// The UTF-8 bytes of a text.
pub fn utf8_bytes(s: &Vec<char>) -> (r: Vec<u8>)
    ensures
        r@ == vstd::utf8::encode_utf8(s@),
{
    let st = from_chars(s);
    st.as_str().as_bytes_vec()
}

/// The buffer with the live-reload script spliced after each `<head>`
/// and the websocket port substituted; a buffer already carrying the
/// script marker is left unchanged.
pub open spec fn spec_inject_reload(s: Seq<char>, script: Seq<char>, port: u16) -> Seq<char> {
    if contains_seq(s, dev_marker()) {
        s
    } else {
        crate::text::spec_replace(
            crate::text::spec_replace(s, "<head>"@, "<head>"@ + script),
            port_placeholder(),
            crate::text::spec_digits(port as nat),
        )
    }
}

/// Injects the development-mode live-reload tooling into a page.
pub fn inject_reload_script(s: Vec<char>, cfg: &BuildConfig) -> (r: Vec<char>)
    ensures
        r@ == spec_inject_reload(s@, cfg.reload_script@, cfg.ws_port),
{
    let marker = to_chars("// * SCRIPT INCLUDED IN DEV MODE");
    match crate::text::find_from(&s, &marker, 0) {
        Some(_) => {
            proof {
                crate::text::lemma_spec_find_exists(s@, marker@);
                crate::text::lemma_spec_find(s@, marker@, 0);
            }
            s
        },
        None => {
            proof {
                crate::text::lemma_spec_find_exists(s@, marker@);
            }
            let head = to_chars("<head>");
            let mut with_script = to_chars("<head>");
            push_all(&mut with_script, &to_chars(cfg.reload_script.as_str()));
            proof {
                assert(with_script@ =~= "<head>"@ + cfg.reload_script@);
            }
            let step1 = crate::text::replace_all(&s, &head, &with_script);
            let port = crate::text::u16_digits(cfg.ws_port);
            let placeholder = to_chars("__SIMPLE_WS_PORT_PLACEHOLDER__");
            crate::text::replace_all(&step1, &placeholder, &port)
        },
    }
}

/// Resolves a markup buffer through the fixed-order pipeline: markdown
/// blocks are lifted first, then wrapping components, then self-closing
/// components, then template references, each pass fed the previous
/// pass's output; the diagnostics of every sub-resolution accumulate.
/// The output text and math flag are exactly the model's resolution.
fn page_core(store: &FileStore, cfg: &BuildConfig, text: Vec<char>, hist: Hist) -> (r: Resolved)
    ensures
        res_view(r) == crate::model::sp_page(*store, *cfg, text@, hist_view(hist)),
    decreases store_free(*store, hist_view(hist)), 3int, 0int,
{
    let ghost t0 = text@;
    let mut math = false;
    let md_pat = to_chars("</markdown>");
    let mut cur = text;
    match crate::text::find_from(&cur, &md_pat, 0) {
        Some(_) => {
            proof {
                crate::text::lemma_spec_find(cur@, md_pat@, 0);
                assert(contains_seq(t0, crate::scan::md_close()));
            }
            let (rendered, m) = crate::render::render_markdown(from_chars(&cur), cfg.dev);
            cur = to_chars(rendered.as_str());
            if m {
                math = true;
            }
            proof {
                assert((cur@, math) == crate::model::sp_markdown(t0, cfg.dev, 0));
            }
        },
        None => {
            proof {
                crate::text::lemma_spec_find_exists(cur@, md_pat@);
                assert(!contains_seq(t0, crate::scan::md_close()));
            }
        },
    }
    let mut r1 = comp_pass_rec(store, cfg, &cur, 0, false, &hist);
    let ghost r1v = res_view(r1);
    let mut r2 = comp_pass_rec(store, cfg, &r1.text, 0, true, &hist);
    let ghost r2v = res_view(r2);
    let mut r3 = tpl_pass_rec(store, cfg, &r2.text, 0, &hist);
    let ghost r3v = res_view(r3);
    let mut errors = r1.errors;
    errors.append(&mut r2.errors);
    errors.append(&mut r3.errors);
    let mut writes = r1.writes;
    writes.append(&mut r2.writes);
    writes.append(&mut r3.writes);
    if r1.math_used || r2.math_used || r3.math_used {
        math = true;
    }
    let r = Resolved { text: r3.text, errors, math_used: math, writes };
    proof {
        assert(crate::model::errs_view(r.errors@) =~= r1v.errs + r2v.errs + r3v.errs);
        assert(crate::model::writes_view(r.writes@) =~= r1v.writes + r2v.writes + r3v.writes);
        assert(res_view(r) == crate::model::sp_page(*store, *cfg, t0, hist_view(hist)));
    }
    r
}

/// The two component reference forms the scanner distinguishes.
pub enum ComponentTypes {
    SelfClosing,
    Wrapping,
}

fn to_process_result(r: Resolved) -> (p: ProcessResult)
    ensures
        p.output@ == r.text@,
        p.errors == r.errors,
        p.math_used == r.math_used,
        p.writes == r.writes,
{
    ProcessResult {
        output: from_chars(&r.text),
        errors: r.errors,
        math_used: r.math_used,
        writes: r.writes,
    }
}

/// Resolves a markup buffer through the fixed-order pass pipeline:
/// markdown, wrapping components, self-closing components, template
/// references.  The output text and math flag are exactly the model's
/// resolution, so a buffer without any marker resolves to itself with
/// no diagnostics.
pub fn page(store: &FileStore, cfg: &BuildConfig, input: String, hist: Hist) -> (r: ProcessResult)
    ensures
        result_view(r) == crate::model::sp_page(*store, *cfg, input@, hist_view(hist)),
        no_markers(input@) ==> r.output@ == input@ && r.errors@.len() == 0 && r.writes@.len() == 0
            && !r.math_used,
{
    let ghost h0 = hist_view(hist);
    let res = page_core(store, cfg, to_chars(input.as_str()), hist);
    let out = to_process_result(res);
    proof {
        assert(result_view(out) == crate::model::sp_page(*store, *cfg, input@, h0));
        if no_markers(input@) {
            crate::model::lemma_sp_page_id(*store, *cfg, input@, h0);
            assert(crate::model::errs_view(out.errors@).len() == out.errors@.len());
            assert(crate::model::writes_view(out.writes@).len() == out.writes@.len());
        }
    }
    out
}

/// One scan-and-replace pass over the buffer for component references
/// of the given form: each match replaced in place by its reference's
/// resolution, text outside matches kept, exactly as the model's pass
/// says; a buffer without such a reference passes through unchanged.
pub fn process_component(
    store: &FileStore,
    cfg: &BuildConfig,
    input: String,
    component_type: ComponentTypes,
    hist: Hist,
) -> (r: ProcessResult)
    ensures
        component_type is SelfClosing ==> result_view(r) == crate::model::sp_comp_pass(
            *store,
            *cfg,
            input@,
            0,
            true,
            hist_view(hist),
        ),
        component_type is Wrapping ==> result_view(r) == crate::model::sp_comp_pass(
            *store,
            *cfg,
            input@,
            0,
            false,
            hist_view(hist),
        ),
        component_type is SelfClosing && crate::scan::no_tag(input@, true) ==> r.output@ == input@
            && r.errors@.len() == 0 && r.writes@.len() == 0 && !r.math_used,
        component_type is Wrapping && crate::scan::no_tag(input@, false) ==> r.output@ == input@
            && r.errors@.len() == 0 && r.writes@.len() == 0 && !r.math_used,
{
    let self_closing = match component_type {
        ComponentTypes::SelfClosing => true,
        ComponentTypes::Wrapping => false,
    };
    let text = to_chars(input.as_str());
    let res = comp_pass_rec(store, cfg, &text, 0, self_closing, &hist);
    let out = to_process_result(res);
    proof {
        assert(result_view(out) == crate::model::sp_comp_pass(
            *store,
            *cfg,
            input@,
            0,
            self_closing,
            hist_view(hist),
        ));
        if crate::scan::no_tag(input@, self_closing) {
            crate::model::lemma_sp_comp_pass_id(*store, *cfg, input@, self_closing, hist_view(
                hist,
            ));
            assert(crate::model::errs_view(out.errors@).len() == out.errors@.len());
            assert(crate::model::writes_view(out.writes@).len() == out.writes@.len());
        }
    }
    out
}

/// One scan-and-replace pass for template references: each match
/// replaced in place by the named template's resolution, exactly as
/// the model's pass says; a buffer without one passes through
/// unchanged.
pub fn process_template(store: &FileStore, cfg: &BuildConfig, input: String, hist: Hist) -> (r:
    ProcessResult)
    ensures
        result_view(r) == crate::model::sp_tpl_pass(*store, *cfg, input@, 0, hist_view(hist)),
        crate::scan::no_template(input@) ==> r.output@ == input@ && r.errors@.len() == 0
            && r.writes@.len() == 0 && !r.math_used,
{
    let text = to_chars(input.as_str());
    let res = tpl_pass_rec(store, cfg, &text, 0, &hist);
    let out = to_process_result(res);
    proof {
        assert(result_view(out) == crate::model::sp_tpl_pass(
            *store,
            *cfg,
            input@,
            0,
            hist_view(hist),
        ));
        if crate::scan::no_template(input@) {
            crate::model::lemma_sp_tpl_pass_id(*store, *cfg, input@, hist_view(hist));
            assert(crate::model::errs_view(out.errors@).len() == out.errors@.len());
            assert(crate::model::writes_view(out.writes@).len() == out.writes@.len());
        }
    }
    out
}

/// Resolves one self-closing component reference.  A path already on
/// the branch yields a `Circular` diagnostic, a missing definition a
/// `NotFound` one, each with empty output.
pub fn get_component_self(
    store: &FileStore,
    cfg: &BuildConfig,
    component: &str,
    targets: Vec<(String, String)>,
    hist: Hist,
) -> (r: ProcessResult)
    ensures
        hist_view(hist).contains(crate::paths::spec_component_path(component@)) ==> r.output@.len()
            == 0 && r.errors@.len() == 1 && err_is(
            r.errors@[0],
            ErrorType::Circular,
            WithItem::Component,
            crate::paths::spec_component_path(component@),
        ) && r.writes@.len() == 0 && !r.math_used,
        !hist_view(hist).contains(crate::paths::spec_component_path(component@)) && store.lookup(
            crate::paths::spec_component_path(component@),
        ) is None ==> r.output@.len() == 0 && r.errors@.len() == 1 && err_is(
            r.errors@[0],
            ErrorType::NotFound,
            WithItem::Component,
            crate::paths::spec_component_path(component@),
        ) && r.writes@.len() == 0 && !r.math_used,
        result_view(r) == crate::model::sp_component(
            *store,
            *cfg,
            component@,
            pairs_view(targets@),
            None,
            false,
            hist_view(hist),
        ),
{
    to_process_result(
        get_component_core(store, cfg, to_chars(component), targets, None, false, hist),
    )
}

/// Resolves one wrapping component reference.  Besides the `Circular`
/// and `NotFound` cases, a definition without a literal slot pair
/// yields a `Syntax` diagnostic and empty output, whatever the caller
/// supplied.
pub fn get_component_slot(
    store: &FileStore,
    cfg: &BuildConfig,
    component: &str,
    targets: Vec<(String, String)>,
    slot_content: Option<String>,
    hist: Hist,
) -> (r: ProcessResult)
    ensures
        hist_view(hist).contains(crate::paths::spec_component_path(component@)) ==> r.output@.len()
            == 0 && r.errors@.len() == 1 && err_is(
            r.errors@[0],
            ErrorType::Circular,
            WithItem::Component,
            crate::paths::spec_component_path(component@),
        ) && r.writes@.len() == 0 && !r.math_used,
        !hist_view(hist).contains(crate::paths::spec_component_path(component@)) && store.lookup(
            crate::paths::spec_component_path(component@),
        ) is None ==> r.output@.len() == 0 && r.errors@.len() == 1 && err_is(
            r.errors@[0],
            ErrorType::NotFound,
            WithItem::Component,
            crate::paths::spec_component_path(component@),
        ) && r.writes@.len() == 0 && !r.math_used,
        !hist_view(hist).contains(crate::paths::spec_component_path(component@)) && (store.lookup(
            crate::paths::spec_component_path(component@),
        ) matches Some(body) && !has_slot_pair(body)) ==> r.output@.len() == 0 && r.errors@.len()
            == 1 && err_is(
            r.errors@[0],
            ErrorType::Syntax,
            WithItem::Component,
            crate::paths::spec_component_path(component@),
        ) && r.writes@.len() == 0 && !r.math_used,
        result_view(r) == crate::model::sp_component(
            *store,
            *cfg,
            component@,
            pairs_view(targets@),
            opt_str_view(slot_content),
            true,
            hist_view(hist),
        ),
{
    let slot: Option<Vec<char>> = match &slot_content {
        Option::Some(s) => Option::Some(to_chars(s.as_str())),
        Option::None => Option::None,
    };
    proof {
        assert(opt_chars_view(slot) == opt_str_view(slot_content));
    }
    to_process_result(
        get_component_core(store, cfg, to_chars(component), targets, slot, true, hist),
    )
}

/// Resolves one template reference: shell plus structured data, one
/// instance per record, entries written standalone.
pub fn get_template(store: &FileStore, cfg: &BuildConfig, name: &str, hist: Hist) -> (r:
    ProcessResult)
    ensures
        hist_view(hist).contains(crate::paths::spec_template_path(name@)) ==> r.output@.len() == 0
            && r.errors@.len() == 1 && err_is(
            r.errors@[0],
            ErrorType::Circular,
            WithItem::Template,
            crate::paths::spec_template_path(name@),
        ) && r.writes@.len() == 0 && !r.math_used,
        !hist_view(hist).contains(crate::paths::spec_template_path(name@)) && store.lookup(
            crate::paths::spec_template_path(name@),
        ) is None ==> r.output@.len() == 0 && r.errors@.len() >= 1 && err_is(
            r.errors@[0],
            ErrorType::NotFound,
            WithItem::Template,
            crate::paths::spec_template_path(name@),
        ) && r.writes@.len() == 0 && !r.math_used,
        !hist_view(hist).contains(crate::paths::spec_template_path(name@)) && store.has(
            crate::paths::spec_template_path(name@),
        ) && (store.lookup(crate::paths::spec_data_json_path(name@)) matches Some(data)
            && !crate::json::json_parses(data)) ==> r.output@.len() == 0 && r.errors@.len() == 1
            && err_is(
            r.errors@[0],
            ErrorType::Syntax,
            WithItem::Data,
            crate::paths::spec_data_json_path(name@),
        ) && r.writes@.len() == 0 && !r.math_used,
        !hist_view(hist).contains(crate::paths::spec_template_path(name@)) && store.has(
            crate::paths::spec_template_path(name@),
        ) && store.lookup(crate::paths::spec_data_json_path(name@)) is None && store.lookup(
            crate::paths::spec_data_toml_path(name@),
        ) is None ==> r.output@.len() == 0 && r.errors@.len() == 1 && err_is(
            r.errors@[0],
            ErrorType::NotFound,
            WithItem::Data,
            crate::paths::spec_data_toml_path(name@),
        ) && r.writes@.len() == 0 && !r.math_used,
        !hist_view(hist).contains(crate::paths::spec_template_path(name@)) && store.has(
            crate::paths::spec_template_path(name@),
        ) && (store.lookup(crate::paths::spec_data_json_path(name@)) matches Some(data)
            && crate::json::json_parses(data) && crate::json::json_records_of(data) is None)
            ==> r.output@.len() == 0 && r.errors@.len() == 1 && err_is(
            r.errors@[0],
            ErrorType::Syntax,
            WithItem::Data,
            crate::paths::spec_data_json_path(name@),
        ) && r.writes@.len() == 0 && !r.math_used,
        result_view(r) == crate::model::sp_template(*store, *cfg, name@, hist_view(hist)),
{
    to_process_result(get_template_core(store, cfg, to_chars(name), hist))
}

/// Processes one entry record of a template and queues its standalone
/// output file; the reserved keys must both be non-empty.
pub fn process_entry(
    store: &FileStore,
    cfg: &BuildConfig,
    name: &str,
    entry_path: String,
    result_path: String,
    kv: Vec<(String, String)>,
    hist: Hist,
) -> (r: (Vec<ProcessError>, Vec<OutputFile>))
    ensures
        entry_path@.len() == 0 || result_path@.len() == 0 ==> r.0@.len() == 1 && err_is(
            r.0@[0],
            ErrorType::Other,
            WithItem::Template,
            result_path@,
        ) && r.1@.len() == 0,
        entry_path@.len() > 0 && result_path@.len() > 0 && store.lookup(
            crate::paths::spec_frame_path(name@),
        ) is None ==> r.0@.len() == 1 && err_is(
            r.0@[0],
            ErrorType::NotFound,
            WithItem::Data,
            crate::paths::spec_frame_path(name@),
        ) && r.1@.len() == 0,
        entry_path@.len() > 0 && result_path@.len() > 0 && store.has(
            crate::paths::spec_frame_path(name@),
        ) && store.lookup(spec_entry_file_path(entry_path@)) is None ==> r.0@.len() == 1 && err_is(
            r.0@[0],
            ErrorType::NotFound,
            WithItem::Data,
            spec_entry_file_path(entry_path@),
        ) && r.1@.len() == 0,
        entry_path@.len() > 0 && result_path@.len() > 0 && store.has(
            crate::paths::spec_frame_path(name@),
        ) && store.has(spec_entry_file_path(entry_path@)) ==> r.1@.len() >= 1 && r.1@[r.1@.len()
            - 1].path@ == trim_lead_slash(result_path@),
        crate::model::errs_view(r.0@) == crate::model::sp_entry(
            *store,
            *cfg,
            name@,
            entry_path@,
            result_path@,
            pairs_view(kv@),
            hist_view(hist),
        ).errs,
        crate::model::writes_view(r.1@) == crate::model::sp_entry(
            *store,
            *cfg,
            name@,
            entry_path@,
            result_path@,
            pairs_view(kv@),
            hist_view(hist),
        ).writes,
{
    process_entry_core(
        store,
        cfg,
        &to_chars(name),
        to_chars(entry_path.as_str()),
        to_chars(result_path.as_str()),
        kv,
        hist,
    )
}

} // verus!
