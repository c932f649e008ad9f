//! Front-matter data for templates: a YAML block between `---` fences at
//! the head of a markdown file becomes a record, and a TOML manifest
//! lists the markdown files whose records feed a template.  Each parse
//! is one trusted step whose result is a named function of the text, so
//! record loading is a function of the project snapshot alone; the fence
//! handling and record assembly are verified against that model.

use vstd::prelude::*;
use crate::error::{err_is, ErrorType, ProcessError, WithItem};
use crate::paths::{data_toml_path, path_string, spec_data_toml_path, spec_name_slash};
use crate::render::is_trim_space;
use crate::store::FileStore;
use crate::text::{contains_at, copy_range, from_chars, match_at, push_all, spec_find, to_chars};
use crate::utils::{kvs_pairs_view, pairs_view};

verus! {

/// The markdown files a template's data manifest names, in order.
pub struct FileList {
    pub files: Vec<String>,
}

#[verifier::external_type_specification]
#[verifier::external_body]
pub struct ExYamlValue(serde_yaml::Value);

#[verifier::external_type_specification]
#[verifier::external_body]
pub struct ExTomlValue(toml::Value);

/// Whether a text is well-formed YAML: a function of the text alone.
pub uninterp spec fn yaml_parses(s: Seq<char>) -> bool;

/// The record a well-formed YAML text yields: its string-keyed fields
/// in mapping order, each scalar rendered as text; empty when the
/// document is not a mapping.  A function of the text alone;
/// meaningful only when `yaml_parses` holds of the text.
pub uninterp spec fn yaml_record_of(s: Seq<char>) -> Seq<(Seq<char>, Seq<char>)>;

/// Relies on serde_yaml::from_str::<Value> and Mapping iteration:
/// parses the block and hands out its string-keyed fields in mapping
/// order — a string value kept as itself, a number or boolean via
/// to_string, any other value as the empty string; non-string keys are
/// skipped; a document that is not a mapping yields no fields.
/// Success and fields depend on the text alone; a parse failure is
/// returned as its message.
#[verifier::external_body]
fn yaml_record(s: &str) -> (r: Result<Vec<(String, String)>, String>)
    ensures
        r is Ok <==> yaml_parses(s@),
        r matches Ok(f) ==> pairs_view(f@) == yaml_record_of(s@),
{
    let v: serde_yaml::Value =
        serde_yaml::from_str(s).map_err(|e| format!("Failed to parse YAML frontmatter: {}", e))?;
    let m = match v { serde_yaml::Value::Mapping(m) => m, _ => return Ok(Vec::new()) };
    Ok(m.iter().filter_map(|(k, val)| {
        let ks = match k { serde_yaml::Value::String(ks) => ks.clone(), _ => return None };
        let vs = match val {
            serde_yaml::Value::String(x) => x.clone(),
            serde_yaml::Value::Number(n) => n.to_string(),
            serde_yaml::Value::Bool(b) => b.to_string(),
            _ => String::new(),
        };
        Some((ks, vs))
    }).collect())
}

/// Whether a text is well-formed TOML: a function of the text alone.
pub uninterp spec fn toml_parses(s: Seq<char>) -> bool;

/// The file names a well-formed TOML manifest lists, in order: `None`
/// when its files field is missing, not an array, or holds a
/// non-string element.  A function of the text alone; meaningful only
/// when `toml_parses` holds of the text.
pub uninterp spec fn toml_files_of(s: Seq<char>) -> Option<Seq<Seq<char>>>;

/// The views of a list of file names.
pub open spec fn files_view(fs: Seq<String>) -> Seq<Seq<char>> {
    fs.map_values(|f: String| f@)
}

/// Relies on toml::from_str::<Value>, Value::get, as_array and as_str:
/// parses the manifest and hands out the strings of its files array in
/// order, or `None` when the field is missing, not an array, or holds
/// a non-string element.  Success and list depend on the text alone; a
/// parse failure is returned as its message.
#[verifier::external_body]
fn toml_files(s: &str) -> (r: Result<Option<FileList>, String>)
    ensures
        r is Ok <==> toml_parses(s@),
        r matches Ok(o) ==> (match o {
            Option::Some(fl) => toml_files_of(s@) == Some(files_view(fl.files@)),
            Option::None => toml_files_of(s@) is None,
        }),
{
    let v: toml::Value = toml::from_str(s).map_err(|e| format!("Failed to parse TOML: {}", e))?;
    Ok(
        v.get("files").and_then(|f| f.as_array()).and_then(
            |arr|
                arr.iter().map(|x| x.as_str().map(|y| y.to_string())).collect::<
                    Option<Vec<String>>,
                >(),
        ).map(|files| FileList { files }),
    )
}

/// End of the leading whitespace run (newlines included) at `i`.
pub open spec fn ws_run_end(s: Seq<char>, i: int) -> int
    decreases s.len() - i,
{
    if 0 <= i && i < s.len() && is_trim_space(s[i]) {
        ws_run_end(s, i + 1)
    } else {
        i
    }
}

fn ws_run_end_exec(s: &Vec<char>, i: usize) -> (r: usize)
    requires
        i <= s@.len(),
    ensures
        r == ws_run_end(s@, i as int),
        i <= r <= s@.len(),
    decreases s@.len() - i,
{
    if i < s.len() && crate::render::trim_space_char(s[i]) {
        ws_run_end_exec(s, i + 1)
    } else {
        i
    }
}

/// The front-matter fence.
pub open spec fn fm_fence() -> Seq<char> {
    "---"@
}

/// The closing fence: a newline followed by three dashes.
pub open spec fn fm_close() -> Seq<char> {
    "\n---"@
}

/// The content with leading whitespace removed: where the opening fence
/// must stand.
pub open spec fn fm_trimmed(s: Seq<char>) -> Seq<char> {
    s.skip(ws_run_end(s, 0))
}

/// The text after the opening fence.
pub open spec fn fm_after(s: Seq<char>) -> Seq<char> {
    fm_trimmed(s).skip(fm_fence().len() as int)
}

/// The YAML block between the fences, when the closing fence exists.
pub open spec fn fm_block(s: Seq<char>) -> Seq<char> {
    match spec_find(fm_after(s), fm_close(), 0) {
        Some(e) => fm_after(s).subrange(0, e),
        None => Seq::empty(),
    }
}

/// The content after the closing fence, with leading whitespace
/// removed: what remains of the markdown file once its front matter is
/// stripped.
pub open spec fn fm_rest(s: Seq<char>) -> Seq<char> {
    match spec_find(fm_after(s), fm_close(), 0) {
        Some(e) => {
            let tail = fm_after(s).skip(e + fm_close().len());
            tail.skip(ws_run_end(tail, 0))
        },
        None => Seq::empty(),
    }
}

/// Some field of a record carries the given key.
pub open spec fn has_field_seq(fs: Seq<(Seq<char>, Seq<char>)>, key: Seq<char>) -> bool {
    exists|j: int| 0 <= j < fs.len() && (#[trigger] fs[j]).0 == key
}

/// What front-matter extraction yields: `None` unless the content
/// opens with a fence after optional whitespace, closes with a fence,
/// parses as YAML and carries a title field; otherwise the fields and
/// the remaining content.
pub open spec fn sp_frontmatter(content: Seq<char>) -> Option<
    (Seq<(Seq<char>, Seq<char>)>, Seq<char>),
> {
    if !contains_at(fm_trimmed(content), 0, fm_fence()) {
        None
    } else {
        match spec_find(fm_after(content), fm_close(), 0) {
            None => None,
            Some(_) => if !yaml_parses(fm_block(content)) {
                None
            } else {
                let fields = yaml_record_of(fm_block(content));
                if has_field_seq(fields, "title"@) {
                    Some((fields, fm_rest(content)))
                } else {
                    None
                }
            },
        }
    }
}

/// Extracts the YAML front matter of a markdown file.  The content must
/// open with a `---` fence after optional whitespace and close with a
/// `\n---` fence; the block between them must be YAML carrying a
/// `title` field.  On success the fields are returned in order together
/// with the remaining content: exactly `sp_frontmatter` of the content.
#[verifier::rlimit(60)]
pub fn extract_frontmatter(content: &str) -> (r: Result<(Vec<(String, String)>, String),
    ProcessError>)
    ensures
        r is Ok <==> sp_frontmatter(content@) is Some,
        r matches Ok(p) ==> sp_frontmatter(content@) == Some((pairs_view(p.0@), p.1@)),
        r matches Err(e) ==> e.error_type == ErrorType::Syntax && e.item == WithItem::Data,
{
    let s = to_chars(content);
    let w = ws_run_end_exec(&s, 0);
    let t = copy_range(&s, w, s.len());
    proof {
        assert(t@ =~= fm_trimmed(s@));
    }
    let fence = to_chars("---");
    if fence.len() > t.len() || !match_at(&t, &fence, 0) {
        return Err(syntax_err("Frontmatter must start with '---'"));
    }
    let after = copy_range(&t, fence.len(), t.len());
    proof {
        assert(after@ =~= fm_after(s@));
    }
    let close = to_chars("\n---");
    match crate::text::find_from(&after, &close, 0) {
        None => Err(syntax_err("Frontmatter must end with '---'")),
        Some(e) => {
            proof {
                crate::text::lemma_spec_find(after@, close@, 0);
                assert(e + close@.len() <= after@.len());
            }
            let block = copy_range(&after, 0, e);
            let tail = copy_range(&after, e + close.len(), after.len());
            proof {
                assert(tail@ =~= fm_after(s@).skip(e + fm_close().len()));
            }
            let tw = ws_run_end_exec(&tail, 0);
            let rest = copy_range(&tail, tw, tail.len());
            proof {
                assert(block@ =~= fm_block(s@));
                assert(rest@ =~= fm_rest(s@));
            }
            match yaml_record(from_chars(&block).as_str()) {
                Err(msg) => Err(
                    ProcessError {
                        error_type: ErrorType::Syntax,
                        item: WithItem::Data,
                        path: String::new(),
                        message: Some(msg),
                    },
                ),
                Ok(fields) => {
                    if !has_key(&fields, "title") {
                        return Err(syntax_err("Frontmatter must contain a 'title' field"));
                    }
                    let rest_string = from_chars(&rest);
                    proof {
                        assert(rest_string@ == fm_rest(content@));
                        assert(has_field_seq(pairs_view(fields@), "title"@));
                    }
                    Ok((fields, rest_string))
                },
            }
        },
    }
}

/// Whether some field carries the given key.
pub fn has_key(fields: &Vec<(String, String)>, key: &str) -> (b: bool)
    ensures
        b == has_field_seq(pairs_view(fields@), key@),
{
    let kv = to_chars(key);
    let mut i: usize = 0;
    while i < fields.len()
        invariant
            i <= fields@.len(),
            kv@ == key@,
            forall|j: int| 0 <= j < i ==> (#[trigger] pairs_view(fields@)[j]).0 != key@,
        decreases fields@.len() - i,
    {
        let k = to_chars(fields[i].0.as_str());
        if crate::store::chars_eq(&k, &kv) {
            proof {
                assert(pairs_view(fields@)[i as int].0 == key@);
            }
            return true;
        }
        proof {
            assert(pairs_view(fields@)[i as int].0 == fields@[i as int].0@);
        }
        i += 1;
    }
    proof {
        if has_field_seq(pairs_view(fields@), key@) {
            let j = choose|j: int|
                0 <= j < pairs_view(fields@).len() && (#[trigger] pairs_view(fields@)[j]).0
                    == key@;
            assert(pairs_view(fields@)[j].0 == key@);
        }
    }
    false
}

fn syntax_err(msg: &str) -> (r: ProcessError)
    ensures
        r.error_type == ErrorType::Syntax,
        r.item == WithItem::Data,
{
    ProcessError {
        error_type: ErrorType::Syntax,
        item: WithItem::Data,
        path: String::new(),
        message: Some(from_chars(&to_chars(msg))),
    }
}

/// Start of a file name's last path component: one past its last `/`.
pub open spec fn stem_start(f: Seq<char>, i: int, cur: int) -> int
    decreases f.len() - i,
{
    if 0 <= i && i < f.len() {
        stem_start(
            f,
            i + 1,
            if f[i] == '/' {
                i + 1
            } else {
                cur
            },
        )
    } else {
        cur
    }
}

/// Position of the last `.` at or after `from`, or the length.
pub open spec fn stem_dot(f: Seq<char>, i: int, cur: int) -> int
    decreases f.len() - i,
{
    if 0 <= i && i < f.len() {
        stem_dot(
            f,
            i + 1,
            if f[i] == '.' {
                i
            } else {
                cur
            },
        )
    } else {
        cur
    }
}

/// The last path component of a file name, without its final
/// extension.
pub open spec fn spec_file_stem(f: Seq<char>) -> Seq<char> {
    let start = stem_start(f, 0, 0);
    let dot = stem_dot(f, start, f.len() as int);
    if 0 <= start <= dot <= f.len() {
        f.subrange(start, dot)
    } else {
        f
    }
}

fn stem_start_exec(f: &Vec<char>, i: usize, cur: usize) -> (r: usize)
    requires
        i <= f@.len(),
        cur <= f@.len(),
    ensures
        r == stem_start(f@, i as int, cur as int),
        r <= f@.len(),
    decreases f@.len() - i,
{
    if i < f.len() {
        stem_start_exec(
            f,
            i + 1,
            if f[i] == '/' {
                i + 1
            } else {
                cur
            },
        )
    } else {
        cur
    }
}

fn stem_dot_exec(f: &Vec<char>, i: usize, cur: usize) -> (r: usize)
    requires
        i <= f@.len(),
        cur <= f@.len(),
    ensures
        r == stem_dot(f@, i as int, cur as int),
        r <= f@.len(),
    decreases f@.len() - i,
{
    if i < f.len() {
        stem_dot_exec(
            f,
            i + 1,
            if f[i] == '.' {
                i
            } else {
                cur
            },
        )
    } else {
        cur
    }
}

/// The last path component of a file name, without its final extension.
pub fn file_stem_of(file: &Vec<char>) -> (r: Vec<char>)
    ensures
        r@ == spec_file_stem(file@),
{
    let start = stem_start_exec(file, 0, 0);
    let dot = stem_dot_exec(file, start, file.len());
    if start <= dot {
        copy_range(file, start, dot)
    } else {
        crate::text::copy_chars(file)
    }
}

/// The store path of one manifest-listed markdown file.
pub open spec fn sp_md_path(name: Seq<char>, file: Seq<char>) -> Seq<char> {
    "data/"@ + spec_name_slash(name) + "/"@ + file
}

/// The reserved pairs appended to one manifest record.
pub open spec fn sp_reserved_pairs(name: Seq<char>, file: Seq<char>) -> Seq<
    (Seq<char>, Seq<char>),
> {
    let stem = spec_file_stem(file);
    seq![
        ("--entry-path"@, spec_name_slash(name) + "/"@ + file),
        ("--result-path"@, "content/"@ + stem + ".html"@),
        ("link"@, "./"@ + "content/"@ + stem + ".html"@),
    ]
}

/// The records a manifest yields, in file order: for each listed file
/// present in the snapshot whose front matter extracts, its fields
/// followed by the reserved entry pairs; a failing file contributes no
/// record.
pub open spec fn sp_manifest(store: FileStore, name: Seq<char>, files: Seq<Seq<char>>, i: int) -> Seq<
    Seq<(Seq<char>, Seq<char>)>,
>
    decreases files.len() - i,
{
    if !(0 <= i && i < files.len()) {
        Seq::empty()
    } else {
        let rest = sp_manifest(store, name, files, i + 1);
        match store.lookup(sp_md_path(name, files[i])) {
            None => rest,
            Some(content) => match sp_frontmatter(content) {
                None => rest,
                Some((fields, _)) => seq![fields + sp_reserved_pairs(name, files[i])] + rest,
            },
        }
    }
}

/// The records a template's manifest yields, when the manifest exists,
/// parses, and lists its files: `None` on any of those failures.
pub open spec fn sp_manifest_records(store: FileStore, name: Seq<char>) -> Option<
    Seq<Seq<(Seq<char>, Seq<char>)>>,
> {
    match store.lookup(spec_data_toml_path(name)) {
        None => None,
        Some(t) => if !toml_parses(t) {
            None
        } else {
            match toml_files_of(t) {
                None => None,
                Some(files) => Some(sp_manifest(store, name, files, 0)),
            }
        },
    }
}

/// Loads a template's records from its markdown manifest: the TOML file
/// names markdown files whose front-matter fields become one record
/// each, extended with the reserved entry keys and a link derived from
/// the file name.  A missing or malformed manifest fails the whole
/// load; a failing markdown file is skipped with one diagnostic.
pub fn load_frontmatter_data(store: &FileStore, name: &str) -> (r: Result<
    (Vec<Vec<(String, String)>>, Vec<ProcessError>),
    Vec<ProcessError>,
>)
    ensures
        r is Ok <==> sp_manifest_records(*store, name@) is Some,
        r matches Ok(p) ==> kvs_pairs_view(p.0@) == sp_manifest_records(*store, name@)->Some_0
            && (store.lookup(spec_data_toml_path(name@)) matches Some(t) && toml_files_of(t)
            matches Some(files) && crate::model::errs_view(p.1@)
            == crate::model::sp_manifest_errs(*store, name@, files, 0)),
        !store.has(spec_data_toml_path(name@)) ==> (r matches Err(es) && es@.len() == 1
            && err_is(es@[0], ErrorType::NotFound, WithItem::Data, spec_data_toml_path(name@))),
        (store.lookup(spec_data_toml_path(name@)) matches Some(t) && !toml_parses(t)) ==> (
        r matches Err(es) && es@.len() == 1 && err_is(
            es@[0],
            ErrorType::Syntax,
            WithItem::Data,
            spec_data_toml_path(name@),
        )),
        (store.lookup(spec_data_toml_path(name@)) matches Some(t) && toml_parses(t)
            && toml_files_of(t) is None) ==> (r matches Err(es) && es@.len() == 1 && err_is(
            es@[0],
            ErrorType::Syntax,
            WithItem::Data,
            spec_data_toml_path(name@),
        )),
{
    let name_chars = to_chars(name);
    let toml_path = data_toml_path(&name_chars);
    let toml_content = match store.read(&toml_path) {
        Some(c) => c,
        None => {
            return Err(
                vec![
                    ProcessError {
                        error_type: ErrorType::NotFound,
                        item: WithItem::Data,
                        path: path_string(&toml_path),
                        message: Some(from_chars(&to_chars("Failed to read data file"))),
                    },
                ],
            );
        },
    };
    let list = match toml_files(from_chars(&toml_content).as_str()) {
        Ok(Some(l)) => l,
        Ok(None) => {
            return Err(
                vec![
                    ProcessError {
                        error_type: ErrorType::Syntax,
                        item: WithItem::Data,
                        path: path_string(&toml_path),
                        message: Some(
                            from_chars(&to_chars("The manifest has no files list of strings")),
                        ),
                    },
                ],
            );
        },
        Err(msg) => {
            return Err(
                vec![
                    ProcessError {
                        error_type: ErrorType::Syntax,
                        item: WithItem::Data,
                        path: path_string(&toml_path),
                        message: Some(msg),
                    },
                ],
            );
        },
    };
    let mut records: Vec<Vec<(String, String)>> = Vec::new();
    let mut errors: Vec<ProcessError> = Vec::new();
    let slash_name = crate::paths::name_slash(&name_chars);
    let ghost files = files_view(list.files@);
    let mut fi: usize = 0;
    while fi < list.files.len()
        invariant
            fi <= list.files@.len(),
            files == files_view(list.files@),
            slash_name@ == spec_name_slash(name@),
            name_chars@ == name@,
            sp_manifest(*store, name@, files, 0) =~~= kvs_pairs_view(records@) + sp_manifest(
                *store,
                name@,
                files,
                fi as int,
            ),
            crate::model::errs_view(errors@) + crate::model::sp_manifest_errs(
                *store,
                name@,
                files,
                fi as int,
            ) =~= crate::model::sp_manifest_errs(*store, name@, files, 0),
        decreases list.files@.len() - fi,
    {
        let file = to_chars(list.files[fi].as_str());
        let mut md_path = to_chars("data/");
        push_all(&mut md_path, &slash_name);
        push_all(&mut md_path, &to_chars("/"));
        push_all(&mut md_path, &file);
        proof {
            assert(files[fi as int] == list.files@[fi as int]@);
            assert(md_path@ =~= sp_md_path(name@, files[fi as int]));
        }
        let content = match store.read(&md_path) {
            Some(c) => c,
            None => {
                let ghost errs0 = errors@;
                errors.push(
                    ProcessError {
                        error_type: ErrorType::NotFound,
                        item: WithItem::Data,
                        path: path_string(&md_path),
                        message: Some(from_chars(&to_chars("Failed to read markdown file"))),
                    },
                );
                proof {
                    assert(crate::model::errs_view(errors@) =~= crate::model::errs_view(
                        errs0,
                    ).push(
                        crate::model::SpErr {
                            et: ErrorType::NotFound,
                            item: WithItem::Data,
                            path: sp_md_path(name@, files[fi as int]),
                        },
                    ));
                    assert(crate::model::sp_manifest_errs(*store, name@, files, fi as int)
                        =~= seq![
                        crate::model::SpErr {
                            et: ErrorType::NotFound,
                            item: WithItem::Data,
                            path: sp_md_path(name@, files[fi as int]),
                        },
                    ] + crate::model::sp_manifest_errs(*store, name@, files, fi + 1));
                }
                fi += 1;
                continue;
            },
        };
        let mut fields = match extract_frontmatter(from_chars(&content).as_str()) {
            Ok((f, _)) => f,
            Err(e) => {
                let ghost errs0 = errors@;
                errors.push(
                    ProcessError {
                        error_type: e.error_type,
                        item: e.item,
                        path: path_string(&md_path),
                        message: e.message,
                    },
                );
                proof {
                    assert(crate::model::errs_view(errors@) =~= crate::model::errs_view(
                        errs0,
                    ).push(
                        crate::model::SpErr {
                            et: ErrorType::Syntax,
                            item: WithItem::Data,
                            path: sp_md_path(name@, files[fi as int]),
                        },
                    ));
                    assert(crate::model::sp_manifest_errs(*store, name@, files, fi as int)
                        =~= seq![
                        crate::model::SpErr {
                            et: ErrorType::Syntax,
                            item: WithItem::Data,
                            path: sp_md_path(name@, files[fi as int]),
                        },
                    ] + crate::model::sp_manifest_errs(*store, name@, files, fi + 1));
                }
                fi += 1;
                continue;
            },
        };
        let ghost base_fields = pairs_view(fields@);
        let stem = file_stem_of(&file);
        let mut entry_path = crate::text::copy_chars(&slash_name);
        push_all(&mut entry_path, &to_chars("/"));
        push_all(&mut entry_path, &file);
        let mut result_path = to_chars("content/");
        push_all(&mut result_path, &stem);
        push_all(&mut result_path, &to_chars(".html"));
        let mut link = to_chars("./");
        push_all(&mut link, &result_path);
        fields.push((from_chars(&to_chars("--entry-path")), from_chars(&entry_path)));
        fields.push((from_chars(&to_chars("--result-path")), from_chars(&result_path)));
        fields.push((from_chars(&to_chars("link")), from_chars(&link)));
        let ghost recs0 = records@;
        records.push(fields);
        proof {
            assert(crate::model::sp_manifest_errs(*store, name@, files, fi as int)
                =~= crate::model::sp_manifest_errs(*store, name@, files, fi + 1));
            assert(pairs_view(records@[recs0.len() as int]@) =~~= base_fields + sp_reserved_pairs(
                name@,
                files[fi as int],
            ));
            assert(kvs_pairs_view(records@) =~~= kvs_pairs_view(recs0).push(
                base_fields + sp_reserved_pairs(name@, files[fi as int]),
            ));
            assert(sp_manifest(*store, name@, files, 0) =~~= kvs_pairs_view(records@)
                + sp_manifest(*store, name@, files, fi + 1));
        }
        fi += 1;
    }
    proof {
        assert(sp_manifest(*store, name@, files, fi as int) =~~= Seq::<
            Seq<(Seq<char>, Seq<char>)>,
        >::empty());
        assert(kvs_pairs_view(records@) =~~= sp_manifest(*store, name@, files, 0));
        assert(crate::model::sp_manifest_errs(*store, name@, files, fi as int) =~= Seq::<
            crate::model::SpErr,
        >::empty());
        assert(crate::model::errs_view(errors@) =~= crate::model::sp_manifest_errs(
            *store,
            name@,
            files,
            0,
        ));
    }
    Ok((records, errors))
}

} // verus!
