//! The build orchestrator: every page file of the source tree is
//! resolved with a fresh, empty history, post-processed for the build
//! mode, and queued as one output file at the mirrored path; one
//! failing file never prevents the others from completing, and the
//! orchestrator returns the union of all diagnostics, none dropped.

use vstd::prelude::*;
use crate::engine::{inject_reload_script, page, result_view, utf8_bytes, BuildConfig};
use crate::error::{err_is, ErrorType, ProcessError, WithItem};
use crate::katex_assets::inject_katex_css;
use crate::model::{errs_view, sp_out_bytes, sp_page, writes_view, SpErr, SpOutcome, SpWrite};
use crate::render::minify_text;
use crate::store::{FileStore, Hist};
use crate::text::{contains_at, copy_range, from_chars, match_at, to_chars};
use crate::utils::OutputFile;

verus! {

/// The directory all page files live under.
pub open spec fn pages_prefix() -> Seq<char> {
    "pages/"@
}

/// Where a page file's output goes, relative to the output root: its
/// path with the pages directory stripped.
pub open spec fn spec_out_path(p: Seq<char>) -> Seq<char> {
    p.skip(pages_prefix().len() as int)
}

/// The outcome of one page file: a missing file yields one diagnostic;
/// a present file resolves with a fresh history and queues its
/// post-processed output at the mirrored path, or — when its path does
/// not lie under the pages directory — one diagnostic instead of its
/// own output; its resolution's diagnostics and queued entry writes are
/// kept either way.
pub open spec fn sp_single(store: FileStore, cfg: BuildConfig, p: Seq<char>) -> SpOutcome {
    match store.lookup(p) {
        None => SpOutcome {
            errs: seq![SpErr { et: ErrorType::NotFound, item: WithItem::File, path: p }],
            writes: Seq::empty(),
        },
        Some(content) => {
            let pg = sp_page(store, cfg, content, Seq::<Seq<char>>::empty());
            if contains_at(p, 0, pages_prefix()) {
                SpOutcome {
                    errs: pg.errs,
                    writes: pg.writes.push(
                        SpWrite {
                            path: spec_out_path(p),
                            bytes: sp_out_bytes(cfg, pg.text, pg.math),
                        },
                    ),
                }
            } else {
                SpOutcome {
                    errs: pg.errs.push(SpErr { et: ErrorType::Io, item: WithItem::File, path: p }),
                    writes: pg.writes,
                }
            }
        },
    }
}

/// The views of a list of page paths.
pub open spec fn pages_view(ps: Seq<Vec<char>>) -> Seq<Seq<char>> {
    ps.map_values(|p: Vec<char>| p@)
}

/// The diagnostics of a whole build: each page's, in page order.
pub open spec fn sp_build_errs(
    store: FileStore,
    cfg: BuildConfig,
    pages: Seq<Seq<char>>,
    i: int,
) -> Seq<SpErr>
    decreases pages.len() - i,
{
    if !(0 <= i && i < pages.len()) {
        Seq::empty()
    } else {
        sp_single(store, cfg, pages[i]).errs + sp_build_errs(store, cfg, pages, i + 1)
    }
}

/// The output files of a whole build: each page's, in page order.
pub open spec fn sp_build_writes(
    store: FileStore,
    cfg: BuildConfig,
    pages: Seq<Seq<char>>,
    i: int,
) -> Seq<SpWrite>
    decreases pages.len() - i,
{
    if !(0 <= i && i < pages.len()) {
        Seq::empty()
    } else {
        sp_single(store, cfg, pages[i]).writes + sp_build_writes(store, cfg, pages, i + 1)
    }
}

/// Some queued output file is exactly the page at `p`, resolved with a
/// fresh history and post-processed for the mode, at its mirrored path.
pub open spec fn has_page_output(
    ws: Seq<OutputFile>,
    store: FileStore,
    cfg: BuildConfig,
    p: Seq<char>,
) -> bool {
    exists|j: int|
        0 <= j < ws.len() && (#[trigger] ws[j]).path@ == spec_out_path(p) && ws[j].bytes@
            == sp_out_bytes(
            cfg,
            sp_page(store, cfg, store.lookup(p)->Some_0, Seq::<Seq<char>>::empty()).text,
            sp_page(store, cfg, store.lookup(p)->Some_0, Seq::<Seq<char>>::empty()).math,
        )
}

/// Some diagnostic concerns the given path.
pub open spec fn has_diag(es: Seq<ProcessError>, p: Seq<char>) -> bool {
    exists|j: int| 0 <= j < es.len() && (#[trigger] es[j]).path@ == p
}

proof fn lemma_has_page_output_extend(
    a: Seq<OutputFile>,
    b: Seq<OutputFile>,
    store: FileStore,
    cfg: BuildConfig,
    p: Seq<char>,
)
    requires
        has_page_output(a, store, cfg, p),
    ensures
        has_page_output(a + b, store, cfg, p),
{
    let j = choose|j: int|
        0 <= j < a.len() && (#[trigger] a[j]).path@ == spec_out_path(p) && a[j].bytes@
            == sp_out_bytes(
            cfg,
            sp_page(store, cfg, store.lookup(p)->Some_0, Seq::<Seq<char>>::empty()).text,
            sp_page(store, cfg, store.lookup(p)->Some_0, Seq::<Seq<char>>::empty()).math,
        );
    assert((a + b)[j] == a[j]);
}

proof fn lemma_has_diag_extend(a: Seq<ProcessError>, b: Seq<ProcessError>, p: Seq<char>)
    requires
        has_diag(a, p),
    ensures
        has_diag(a + b, p),
{
    let j = choose|j: int| 0 <= j < a.len() && (#[trigger] a[j]).path@ == p;
    assert((a + b)[j] == a[j]);
}

/// Everything one build produced: the output files to write and the
/// union of all diagnostics.
pub struct BuildOutput {
    pub writes: Vec<OutputFile>,
    pub errors: Vec<ProcessError>,
}

/// Resolves one page file with a fresh, empty history, applies the
/// mode's post-processing (production: minification; development:
/// live-reload injection), and queues the result at the mirrored
/// output path.  Diagnostics and queued writes are exactly the model's
/// page outcome: a page under the pages directory always yields its
/// own output file, its resolution diagnostics are all surfaced, and a
/// missing file yields exactly one diagnostic and no output.
pub fn process_single_file(store: &FileStore, cfg: &BuildConfig, path: &Vec<char>) -> (r: (
    Vec<OutputFile>,
    Vec<ProcessError>,
))
    ensures
        writes_view(r.0@) == sp_single(*store, *cfg, path@).writes,
        errs_view(r.1@) == sp_single(*store, *cfg, path@).errs,
        store.has(path@) && contains_at(path@, 0, pages_prefix()) ==> r.0@.len() >= 1
            && r.0@[r.0@.len() - 1].path@ == spec_out_path(path@),
        !store.has(path@) ==> r.0@.len() == 0 && r.1@.len() == 1 && err_is(
            r.1@[0],
            ErrorType::NotFound,
            WithItem::File,
            path@,
        ),
{
    let content = match store.read(path) {
        Some(c) => c,
        None => {
            let errs = vec![
                ProcessError {
                    error_type: ErrorType::NotFound,
                    item: WithItem::File,
                    path: from_chars(path),
                    message: None,
                },
            ];
            let writes: Vec<OutputFile> = Vec::new();
            proof {
                assert(errs_view(errs@) =~= seq![
                    SpErr { et: ErrorType::NotFound, item: WithItem::File, path: path@ },
                ]);
                assert(writes_view(writes@) =~= Seq::<SpWrite>::empty());
            }
            return (writes, errs);
        },
    };
    let res = page(store, cfg, from_chars(&content), Hist::empty());
    let ghost pgv = result_view(res);
    proof {
        assert(pgv == sp_page(
            *store,
            *cfg,
            store.lookup(path@)->Some_0,
            Seq::<Seq<char>>::empty(),
        ));
    }
    let ghost t = res.output@;
    let ghost tmath = res.math_used;
    let mut writes = res.writes;
    let mut errors = res.errors;
    let prefix = to_chars("pages/");
    let well = prefix.len() <= path.len() && match_at(path, &prefix, 0);
    if !well {
        let ghost errs0 = errors@;
        errors.push(
            ProcessError {
                error_type: ErrorType::Io,
                item: WithItem::File,
                path: from_chars(path),
                message: Some(from_chars(&to_chars("Failed to strip pages prefix"))),
            },
        );
        proof {
            assert(errs_view(errors@) =~= errs_view(errs0).push(
                SpErr { et: ErrorType::Io, item: WithItem::File, path: path@ },
            ));
        }
        return (writes, errors);
    }
    let out_path = copy_range(path, prefix.len(), path.len());
    proof {
        assert(out_path@ =~= spec_out_path(path@));
    }
    let mut s = to_chars(res.output.as_str());
    if res.math_used && !cfg.katex_css_disabled {
        s = inject_katex_css(s);
    }
    if cfg.dev {
        s = inject_reload_script(s, cfg);
    }
    let bytes: Vec<u8> = if cfg.dev {
        utf8_bytes(&s)
    } else {
        minify_text(from_chars(&s).as_str())
    };
    proof {
        assert(s@ == crate::model::sp_postprocess(*cfg, t, tmath));
        assert(bytes@ == sp_out_bytes(*cfg, t, tmath));
    }
    let ghost writes0 = writes@;
    writes.push(OutputFile { path: from_chars(&out_path), bytes });
    proof {
        assert(writes_view(writes@) =~= writes_view(writes0).push(
            SpWrite { path: spec_out_path(path@), bytes: sp_out_bytes(*cfg, t, tmath) },
        ));
    }
    (writes, errors)
}

/// Resolves every page of the tree, one after the other, merging each
/// page's outcome into one build result.  The writes and diagnostics
/// are exactly the concatenation of the per-page outcomes, in page
/// order: every page under the pages directory that exists in the
/// snapshot contributes its output file, no diagnostic is dropped, and
/// one failing page never prevents the rest of the tree from being
/// written.
pub fn process_pages(store: &FileStore, cfg: &BuildConfig, pages: &Vec<Vec<char>>) -> (r:
    BuildOutput)
    ensures
        writes_view(r.writes@) == sp_build_writes(*store, *cfg, pages_view(pages@), 0),
        errs_view(r.errors@) == sp_build_errs(*store, *cfg, pages_view(pages@), 0),
        forall|i: int|
            0 <= i < pages@.len() && store.has((#[trigger] pages@[i])@) && contains_at(
                pages@[i]@,
                0,
                pages_prefix(),
            ) ==> has_page_output(r.writes@, *store, *cfg, pages@[i]@),
        forall|i: int|
            0 <= i < pages@.len() && !store.has((#[trigger] pages@[i])@) ==> has_diag(
                r.errors@,
                pages@[i]@,
            ),
{
    let ghost pv = pages_view(pages@);
    let mut writes: Vec<OutputFile> = Vec::new();
    let mut errors: Vec<ProcessError> = Vec::new();
    let mut i: usize = 0;
    while i < pages.len()
        invariant
            i <= pages@.len(),
            pv == pages_view(pages@),
            writes_view(writes@) + sp_build_writes(*store, *cfg, pv, i as int)
                =~= sp_build_writes(*store, *cfg, pv, 0),
            errs_view(errors@) + sp_build_errs(*store, *cfg, pv, i as int) =~= sp_build_errs(
                *store,
                *cfg,
                pv,
                0,
            ),
            forall|k: int|
                0 <= k < i && store.has((#[trigger] pages@[k])@) && contains_at(
                    pages@[k]@,
                    0,
                    pages_prefix(),
                ) ==> has_page_output(writes@, *store, *cfg, pages@[k]@),
            forall|k: int|
                0 <= k < i && !store.has((#[trigger] pages@[k])@) ==> has_diag(
                    errors@,
                    pages@[k]@,
                ),
        decreases pages@.len() - i,
    {
        let ghost w0 = writes@;
        let ghost e0 = errors@;
        let (mut w, mut e) = process_single_file(store, cfg, &pages[i]);
        let ghost wnew = w@;
        let ghost enew = e@;
        writes.append(&mut w);
        errors.append(&mut e);
        proof {
            assert(pv[i as int] == pages@[i as int]@);
            assert(writes@ == w0 + wnew);
            assert(errors@ == e0 + enew);
            assert(sp_build_writes(*store, *cfg, pv, i as int) =~= sp_single(
                *store,
                *cfg,
                pv[i as int],
            ).writes + sp_build_writes(*store, *cfg, pv, i + 1));
            assert(sp_build_errs(*store, *cfg, pv, i as int) =~= sp_single(
                *store,
                *cfg,
                pv[i as int],
            ).errs + sp_build_errs(*store, *cfg, pv, i + 1));
            assert(writes_view(writes@) =~= writes_view(w0) + writes_view(wnew));
            assert(errs_view(errors@) =~= errs_view(e0) + errs_view(enew));
            assert(writes_view(writes@) + sp_build_writes(*store, *cfg, pv, i + 1)
                =~= sp_build_writes(*store, *cfg, pv, 0));
            assert(errs_view(errors@) + sp_build_errs(*store, *cfg, pv, i + 1) =~= sp_build_errs(
                *store,
                *cfg,
                pv,
                0,
            ));
            assert forall|k: int|
                0 <= k < i + 1 && store.has((#[trigger] pages@[k])@) && contains_at(
                    pages@[k]@,
                    0,
                    pages_prefix(),
                ) implies has_page_output(writes@, *store, *cfg, pages@[k]@) by {
                if k < i {
                    lemma_has_page_output_extend(w0, wnew, *store, *cfg, pages@[k]@);
                } else {
                    let sw = sp_single(*store, *cfg, pages@[k]@);
                    let pg = sp_page(
                        *store,
                        *cfg,
                        store.lookup(pages@[k]@)->Some_0,
                        Seq::<Seq<char>>::empty(),
                    );
                    assert(writes_view(wnew) == sw.writes);
                    assert(sw.writes.len() == wnew.len());
                    assert(sw.writes[sw.writes.len() - 1] == (SpWrite {
                        path: spec_out_path(pages@[k]@),
                        bytes: sp_out_bytes(*cfg, pg.text, pg.math),
                    }));
                    assert(crate::model::write_view(wnew[wnew.len() as int - 1]) == writes_view(
                        wnew,
                    )[wnew.len() as int - 1]);
                    assert(writes@[(w0.len() + wnew.len()) as int - 1] == wnew[wnew.len() as int
                        - 1]);
                }
            }
            assert forall|k: int|
                0 <= k < i + 1 && !store.has((#[trigger] pages@[k])@) implies has_diag(
                errors@,
                pages@[k]@,
            ) by {
                if k < i {
                    lemma_has_diag_extend(e0, enew, pages@[k]@);
                } else {
                    assert(enew[0].path@ == pages@[k]@);
                    assert(errors@[e0.len() as int] == enew[0]);
                }
            }
        }
        i += 1;
    }
    proof {
        assert(sp_build_writes(*store, *cfg, pv, i as int) =~= Seq::<SpWrite>::empty());
        assert(sp_build_errs(*store, *cfg, pv, i as int) =~= Seq::<SpErr>::empty());
        assert(writes_view(writes@) =~= sp_build_writes(*store, *cfg, pv, 0));
        assert(errs_view(errors@) =~= sp_build_errs(*store, *cfg, pv, 0));
    }
    BuildOutput { writes, errors }
}

} // verus!
