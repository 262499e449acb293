//! The whole run: declaration, patterns, template, resolution, output.

use vstd::prelude::*;

use crate::classify::{
    classify_patterns, exclusions_of, inclusions_of, literals, views_of, PatternSet,
    MAX_EXCLUSIONS,
};
use crate::error::IndexError;
use crate::locate::{header_of, locate, locate_declaration};
use crate::resolve::{
    concat_chars, find_files_matching, glob_valid, matching, same_chars, trim_dot_slash,
};
use crate::paths::char_vecs;
use crate::template::{
    default_after, default_before, extract_template, template_parts, template_text, ExportTemplate,
};
use crate::text::{chars_of, occurs_at, string_of};

verus! {

/// How the generated lines reach the root file.
#[derive(Clone, Copy, Debug, PartialEq, Eq, Structural)]
pub enum OperatingMode {
    /// The lines are added after the file's existing content.
    Append,
    /// The file becomes its first line followed by the lines.
    Rewrite,
}

/// The choices that tell the two pipeline variants apart.
#[derive(Clone, Copy, Debug, PartialEq, Eq, Structural)]
pub struct Config {
    pub mode: OperatingMode,
    /// Read the export-line template from the declaration instead of using
    /// the default format.
    pub templated: bool,
    /// Stop at the first unreadable candidate instead of skipping it.
    pub abort_on_resolution_error: bool,
}

impl Config {
    /// Append with the default format, skipping unreadable candidates.
    pub fn simple() -> (r: Config)
        ensures
            r.mode == OperatingMode::Append,
            !r.templated,
            !r.abort_on_resolution_error,
    {
        Config { mode: OperatingMode::Append, templated: false, abort_on_resolution_error: false }
    }

    /// Rewrite with the declared template, stopping at any resolution error.
    pub fn templated() -> (r: Config)
        ensures
            r.mode == OperatingMode::Rewrite,
            r.templated,
            r.abort_on_resolution_error,
    {
        Config { mode: OperatingMode::Rewrite, templated: true, abort_on_resolution_error: true }
    }
}

/// What a filesystem walk under the root directory gave: the regular files,
/// relative to that directory, in walk order, and the messages of the
/// entries it could not read.
pub struct Snapshot {
    pub files: Vec<String>,
    pub errors: Vec<String>,
}

/// Everything a run needs from the root file.
pub struct Plan {
    pub header_line: String,
    pub patterns: PatternSet,
    pub template: ExportTemplate,
}

/// A plan as plain values: header, inclusions, exclusions, and the text
/// before and after the path in each export line.
pub type PlanModel = (Seq<char>, Seq<Seq<char>>, Seq<Seq<char>>, Seq<char>, Seq<char>);

impl Plan {
    pub open spec fn model(&self) -> PlanModel {
        (
            self.header_line@,
            self.patterns.inclusions_view(),
            self.patterns.exclusions_view(),
            self.template.before@,
            self.template.after@,
        )
    }
}

/// The plan that the text of a root file gives, if it gives one.
pub open spec fn plan_of(text: Seq<char>, templated: bool) -> Option<PlanModel> {
    match locate(text) {
        None => None,
        Some(body) => {
            let lits = literals(body);
            if exclusions_of(lits).len() > MAX_EXCLUSIONS {
                None
            } else if !templated {
                Some((header_of(text), inclusions_of(lits), exclusions_of(lits), default_before(), default_after()))
            } else {
                match template_text(body) {
                    None => None,
                    Some(tt) => match template_parts(tt) {
                        None => None,
                        Some(parts) => Some((header_of(text), inclusions_of(lits), exclusions_of(lits), parts.0, parts.1)),
                    },
                }
            }
        },
    }
}

/// The position of the first inclusion pattern that is not a valid glob, or -1.
pub open spec fn first_invalid(incls: Seq<Seq<char>>) -> int
    decreases incls.len(),
{
    if incls.len() == 0 {
        -1
    } else {
        let f = first_invalid(incls.drop_last());
        if f >= 0 {
            f
        } else if !glob_valid(trim_dot_slash(incls.last())) {
            incls.len() - 1
        } else {
            -1
        }
    }
}

/// `acc` followed by those of `xs` that are not already there, first
/// occurrence kept.
pub open spec fn merge_unique(acc: Seq<Seq<char>>, xs: Seq<Seq<char>>) -> Seq<Seq<char>>
    decreases xs.len(),
{
    if xs.len() == 0 {
        acc
    } else {
        let r = merge_unique(acc, xs.drop_last());
        if r.contains(xs.last()) {
            r
        } else {
            r.push(xs.last())
        }
    }
}

/// The files of all inclusion patterns: pattern order, then snapshot order,
/// each file once.
pub open spec fn resolved(
    incls: Seq<Seq<char>>,
    excls: Seq<Seq<char>>,
    dir: Seq<char>,
    files: Seq<Seq<char>>,
) -> Seq<Seq<char>>
    decreases incls.len(),
{
    if incls.len() == 0 {
        seq![]
    } else {
        merge_unique(resolved(incls.drop_last(), excls, dir, files), matching(incls.last(), excls, dir, files))
    }
}

/// The path without its `.ts` extension.
pub open spec fn strip_ts(p: Seq<char>) -> Seq<char> {
    if p.len() >= 3 && p.subrange(p.len() - 3, p.len() as int) == seq!['.', 't', 's'] {
        p.take(p.len() - 3)
    } else {
        p
    }
}

/// One export line, without its line break.
pub open spec fn export_line(before: Seq<char>, after: Seq<char>, path: Seq<char>) -> Seq<char> {
    before + strip_ts(path) + after
}

/// The export lines of `paths`, each ended by `\n`.
pub open spec fn exports_text(before: Seq<char>, after: Seq<char>, paths: Seq<Seq<char>>) -> Seq<char>
    decreases paths.len(),
{
    if paths.len() == 0 {
        seq![]
    } else {
        exports_text(before, after, paths.drop_last()) + export_line(before, after, paths.last())
            + seq!['\n']
    }
}

/// What the plan writes: in rewrite mode the whole new file, in append mode
/// the text added at its end; `None` where resolution stops the run.
pub open spec fn output_for(
    p: PlanModel,
    dir: Seq<char>,
    files: Seq<Seq<char>>,
    errors: Seq<Seq<char>>,
    config: Config,
) -> Option<Seq<char>> {
    if first_invalid(p.1) >= 0 {
        None
    } else if config.abort_on_resolution_error && errors.len() > 0 && p.1.len() > 0 {
        None
    } else {
        let body = exports_text(p.3, p.4, resolved(p.1, p.2, dir, files));
        if config.mode == OperatingMode::Rewrite {
            Some(p.0 + seq!['\n'] + body)
        } else {
            Some(body)
        }
    }
}

/// What a run on the root file's text writes, if it succeeds.
pub open spec fn output_of(
    text: Seq<char>,
    dir: Seq<char>,
    files: Seq<Seq<char>>,
    errors: Seq<Seq<char>>,
    config: Config,
) -> Option<Seq<char>> {
    match plan_of(text, config.templated) {
        None => None,
        Some(p) => output_for(p, dir, files, errors, config),
    }
}

/// Reads the plan out of the root file's contents, or says which stage
/// failed. The filesystem is not consulted.
pub fn prepare(contents: Result<String, String>, config: Config) -> (r: Result<Plan, IndexError>)
    ensures
        match contents {
            Err(m) => r == Err::<Plan, IndexError>(IndexError::FileUnreadable(m)),
            Ok(t) => {
                &&& (r is Ok <==> plan_of(t@, config.templated) is Some)
                &&& r is Ok ==> plan_of(t@, config.templated) == Some(r->Ok_0.model())
                &&& locate(t@) is None ==> r == Err::<Plan, IndexError>(IndexError::DeclarationNotFound)
                &&& locate(t@) is Some && exclusions_of(literals(locate(t@)->Some_0)).len() > MAX_EXCLUSIONS
                    ==> r == Err::<Plan, IndexError>(IndexError::TooManyExclusions(
                        exclusions_of(literals(locate(t@)->Some_0)).len() as usize,
                    ))
                &&& locate(t@) is Some && exclusions_of(literals(locate(t@)->Some_0)).len() <= MAX_EXCLUSIONS
                    && config.templated && template_text(locate(t@)->Some_0) is None
                    ==> r == Err::<Plan, IndexError>(IndexError::NoExportTemplate)
                &&& locate(t@) is Some && exclusions_of(literals(locate(t@)->Some_0)).len() <= MAX_EXCLUSIONS
                    && config.templated && template_text(locate(t@)->Some_0) is Some
                    && template_parts(template_text(locate(t@)->Some_0)->Some_0) is None
                    ==> r == Err::<Plan, IndexError>(IndexError::MalformedTemplate)
            },
        },
{
    let text = match contents {
        Err(m) => return Err(IndexError::FileUnreadable(m)),
        Ok(t) => t,
    };
    let decl = locate_declaration(text.as_str())?;
    let patterns = classify_patterns(decl.raw_body.as_str())?;
    let template = if config.templated {
        extract_template(decl.raw_body.as_str())?
    } else {
        ExportTemplate::default_format()
    };
    Ok(Plan { header_line: decl.header_line, patterns, template })
}

proof fn lemma_first_invalid_prefix(s: Seq<Seq<char>>, k: int)
    requires
        0 <= k <= s.len(),
        first_invalid(s.take(k)) >= 0,
    ensures
        first_invalid(s) == first_invalid(s.take(k)),
    decreases s.len(),
{
    if k == s.len() {
        assert(s.take(k) == s);
    } else {
        assert(s.drop_last().take(k) == s.take(k));
        lemma_first_invalid_prefix(s.drop_last(), k);
    }
}

/// Whether `x` is one of the sequences held by `v`.
fn contains_chars(v: &Vec<Vec<char>>, x: &[char]) -> (r: bool)
    ensures
        r == char_vecs(v@).contains(x@),
{
    let ghost cv = char_vecs(v@);
    let mut k: usize = 0;
    while k < v.len()
        invariant
            k <= v.len(),
            cv == char_vecs(v@),
            forall|m: int| 0 <= m < k ==> cv[m] != x@,
        decreases v.len() - k,
    {
        if same_chars(v[k].as_slice(), x) {
            assert(cv[k as int] == x@);
            return true;
        }
        k = k + 1;
    }
    false
}

/// The files of every inclusion pattern in the snapshot, pattern order then
/// snapshot order, each once. Fails at the first invalid pattern; then, when
/// asked to abort on resolution errors and some pattern was walked, at the
/// snapshot's first error.
pub fn resolve_files(
    patterns: &PatternSet,
    source_folder: &str,
    snapshot: &Snapshot,
    abort_on_resolution_error: bool,
) -> (r: Result<Vec<String>, IndexError>)
    ensures
        ({
            let incls = patterns.inclusions_view();
            let f = first_invalid(incls);
            &&& f >= 0 ==> (r is Err && match r->Err_0 {
                IndexError::InvalidPattern(s) => s@ == incls[f],
                _ => false,
            })
            &&& f < 0 && abort_on_resolution_error && snapshot.errors.len() > 0 && incls.len() > 0
                ==> (r is Err
                && match r->Err_0 {
                IndexError::ResolutionError(s) => s@ == snapshot.errors@[0]@,
                _ => false,
            })
            &&& f < 0 && !(abort_on_resolution_error && snapshot.errors.len() > 0 && incls.len() > 0)
                ==> (r is Ok
                && views_of(r->Ok_0@) == resolved(
                incls,
                patterns.exclusions_view(),
                source_folder@,
                views_of(snapshot.files@),
            ))
        }),
{
    let ghost incls = patterns.inclusions_view();
    let ghost excls = patterns.exclusions_view();
    let ghost fv = views_of(snapshot.files@);
    let mut out: Vec<String> = Vec::new();
    let mut seen: Vec<Vec<char>> = Vec::new();
    let mut k: usize = 0;
    while k < patterns.inclusions.len()
        invariant
            k <= patterns.inclusions.len(),
            incls == patterns.inclusions_view(),
            excls == patterns.exclusions_view(),
            fv == views_of(snapshot.files@),
            first_invalid(incls.take(k as int)) < 0,
            char_vecs(seen@) == views_of(out@),
            views_of(out@) == resolved(incls.take(k as int), excls, source_folder@, fv),
        decreases patterns.inclusions.len() - k,
    {
        let ghost pre = incls.take(k as int);
        let ghost next = incls.take(k + 1);
        assert(next.drop_last() == pre);
        assert(next.last() == patterns.inclusions@[k as int]@);
        let found = find_files_matching(
            patterns.inclusions[k].as_str(),
            source_folder,
            patterns.exclusions.as_slice(),
            snapshot.files.as_slice(),
        );
        let found = match found {
            Err(e) => {
                proof {
                    assert(first_invalid(next) == k);
                    lemma_first_invalid_prefix(incls, k + 1);
                }
                return Err(e);
            },
            Ok(v) => v,
        };
        let ghost xs = views_of(found@);
        let ghost acc = views_of(out@);
        let mut j: usize = 0;
        while j < found.len()
            invariant
                j <= found.len(),
                xs == views_of(found@),
                char_vecs(seen@) == views_of(out@),
                views_of(out@) == merge_unique(acc, xs.take(j as int)),
            decreases found.len() - j,
        {
            assert(xs.take(j + 1).drop_last() == xs.take(j as int));
            let x = chars_of(found[j].as_str());
            assert(xs.take(j + 1).last() == x@);
            if !contains_chars(&seen, x.as_slice()) {
                let ghost o0 = views_of(out@);
                let ghost s0 = char_vecs(seen@);
                out.push(string_of(x.as_slice()));
                seen.push(x);
                assert(views_of(out@) == o0.push(x@));
                assert(char_vecs(seen@) == s0.push(x@));
            }
            j = j + 1;
        }
        assert(xs.take(found.len() as int) == xs);
        k = k + 1;
    }
    assert(incls.take(patterns.inclusions.len() as int) == incls);
    if abort_on_resolution_error && snapshot.errors.len() > 0 && patterns.inclusions.len() > 0 {
        return Err(IndexError::ResolutionError(snapshot.errors[0].clone()));
    }
    Ok(out)
}

/// Appends the characters of `s` to `v`.
fn append_chars(v: &mut Vec<char>, s: &[char])
    ensures
        final(v)@ == old(v)@ + s@,
{
    let mut i: usize = 0;
    while i < s.len()
        invariant
            i <= s.len(),
            v@ == old(v)@ + s@.take(i as int),
        decreases s.len() - i,
    {
        v.push(s[i]);
        i = i + 1;
        assert(v@ == old(v)@ + s@.take(i as int));
    }
    assert(s@.take(s.len() as int) == s@);
}

/// The path without its `.ts` extension.
pub fn strip_extension(p: &[char]) -> (r: Vec<char>)
    ensures
        r@ == strip_ts(p@),
{
    let ext: Vec<char> = vec!['.', 't', 's'];
    if p.len() >= 3 && occurs_at(p, ext.as_slice(), p.len() - 3) {
        crate::text::copy_range(p, 0, p.len() - 3)
    } else {
        crate::text::copy_range(p, 0, p.len())
    }
}

/// One export line per path, each ended by `\n`, through the template.
pub fn render_exports(template: &ExportTemplate, paths: &[String]) -> (r: String)
    ensures
        r@ == exports_text(template.before@, template.after@, views_of(paths@)),
{
    let before = chars_of(template.before.as_str());
    let after = chars_of(template.after.as_str());
    let ghost pv = views_of(paths@);
    let mut acc: Vec<char> = Vec::new();
    let mut i: usize = 0;
    while i < paths.len()
        invariant
            i <= paths.len(),
            pv == views_of(paths@),
            before@ == template.before@,
            after@ == template.after@,
            acc@ == exports_text(before@, after@, pv.take(i as int)),
        decreases paths.len() - i,
    {
        assert(pv.take(i + 1).drop_last() == pv.take(i as int));
        let p = chars_of(paths[i].as_str());
        assert(pv.take(i + 1).last() == p@);
        let stem = strip_extension(p.as_slice());
        append_chars(&mut acc, before.as_slice());
        append_chars(&mut acc, stem.as_slice());
        append_chars(&mut acc, after.as_slice());
        acc.push('\n');
        i = i + 1;
        assert(acc@ == exports_text(before@, after@, pv.take(i as int)));
    }
    assert(pv.take(paths.len() as int) == pv);
    string_of(acc.as_slice())
}

/// What the plan writes for the given snapshot: in rewrite mode the whole
/// new file (first line kept, then the export lines), in append mode the
/// export lines to add at its end.
pub fn regenerate(plan: &Plan, source_folder: &str, snapshot: &Snapshot, config: Config) -> (r: Result<String, IndexError>)
    ensures
        ({
            let out = output_for(plan.model(), source_folder@, views_of(snapshot.files@), views_of(snapshot.errors@), config);
            let f = first_invalid(plan.model().1);
            &&& (r is Ok <==> out is Some)
            &&& r is Ok ==> r->Ok_0@ == out->Some_0
            &&& f >= 0 ==> match r->Err_0 {
                IndexError::InvalidPattern(s) => s@ == plan.model().1[f],
                _ => false,
            }
            &&& f < 0 && out is None ==> match r->Err_0 {
                IndexError::ResolutionError(s) => s@ == snapshot.errors@[0]@,
                _ => false,
            }
        }),
{
    let files = resolve_files(&plan.patterns, source_folder, snapshot, config.abort_on_resolution_error)?;
    let body = render_exports(&plan.template, files.as_slice());
    match config.mode {
        OperatingMode::Append => Ok(body),
        OperatingMode::Rewrite => {
            let header = chars_of(plan.header_line.as_str());
            let nl: Vec<char> = vec!['\n'];
            let first = concat_chars(header.as_slice(), nl.as_slice());
            let all = concat_chars(first.as_slice(), chars_of(body.as_str()).as_slice());
            Ok(string_of(all.as_slice()))
        },
    }
}

/// A whole run on the root file's contents, as read: the text to write, or
/// the error of the first stage that failed.
pub fn run(contents: Result<String, String>, source_folder: &str, snapshot: &Snapshot, config: Config) -> (r: Result<String, IndexError>)
    ensures
        match contents {
            Err(m) => r == Err::<String, IndexError>(IndexError::FileUnreadable(m)),
            Ok(t) => {
                let out = output_of(t@, source_folder@, views_of(snapshot.files@), views_of(snapshot.errors@), config);
                &&& (r is Ok <==> out is Some)
                &&& r is Ok ==> r->Ok_0@ == out->Some_0
            },
        },
{
    let plan = prepare(contents, config)?;
    regenerate(&plan, source_folder, snapshot, config)
}

} // verus!
