//! Expanding one inclusion pattern against a snapshot of the directory tree.
//!
//! The snapshot lists the regular files under the root directory, as paths
//! relative to it, in the order the filesystem walk yielded them. That order
//! is kept: it differs between platforms, and output order follows it.

use vstd::prelude::*;

use crate::classify::views_of;
use crate::error::IndexError;
use crate::paths::{char_vecs, exclusion_rejects, excluded_by, excluded_by_any, split_chars, split_on};
use crate::text::{chars_of, occurs_at, string_of};

verus! {

/// Whether `glob::Pattern::new` accepts `pattern`.
pub uninterp spec fn glob_valid(pattern: Seq<char>) -> bool;

/// Whether the compiled glob `pattern` matches `path`, with `*` and `?`
/// kept within one path component, as a filesystem glob walk matches.
pub uninterp spec fn glob_matches(pattern: Seq<char>, path: Seq<char>) -> bool;

/// Relies on `glob::Pattern::new`: whether the pattern compiles.
#[verifier::external_body]
fn pattern_compiles(pattern: &str) -> (r: bool)
    ensures
        r == glob_valid(pattern@),
{
    glob::Pattern::new(pattern).is_ok()
}

/// Relies on `glob::Pattern::matches_with` with the options that `glob::glob`
/// uses (case-sensitive, literal separators, dots not special).
#[verifier::external_body]
fn pattern_matches(pattern: &str, path: &str) -> (r: bool)
    requires
        glob_valid(pattern@),
    ensures
        r == glob_matches(pattern@, path@),
{
    let options = glob::MatchOptions {
        case_sensitive: true,
        require_literal_separator: true,
        require_literal_leading_dot: false,
    };
    match glob::Pattern::new(pattern) {
        Ok(p) => p.matches_with(path, options),
        Err(_) => false,
    }
}

/// The path with a leading `./` removed.
pub open spec fn trim_dot_slash(p: Seq<char>) -> Seq<char> {
    if p.len() >= 2 && p[0] == '.' && p[1] == '/' {
        p.subrange(2, p.len() as int)
    } else {
        p
    }
}

/// Directories whose contents are never exported.
pub open spec fn ignored_dir(seg: Seq<char>) -> bool {
    seg == seq!['t', 'e', 's', 't', 'U', 't', 'i', 'l', 's'] || seg == seq![
        '_',
        '_',
        't',
        'e',
        's',
        't',
        's',
        '_',
        '_',
    ]
}

/// File names that are never exported.
pub open spec fn ignored_file(seg: Seq<char>) -> bool {
    seg == seq!['t', 'y', 'p', 'e', 's', '.', 'd', '.', 't', 's'] || seg == seq![
        'i',
        'n',
        'd',
        'e',
        'x',
        '.',
        't',
        's',
    ]
}

/// Whether the relative path lies under an ignored directory or names an
/// ignored file.
pub open spec fn ignored(rel: Seq<char>) -> bool {
    let segs = split_on(rel, '/', false);
    (exists|k: int| 0 <= k < segs.len() - 1 && ignored_dir(#[trigger] segs[k])) || ignored_file(
        segs.last(),
    )
}

/// The path the exclusion patterns are tested against.
pub open spec fn full_path(dir: Seq<char>, rel: Seq<char>) -> Seq<char> {
    dir + seq!['/'] + rel
}

/// A relative path as it appears in an export line, before its extension is dropped.
pub open spec fn dot_path(rel: Seq<char>) -> Seq<char> {
    seq!['.', '/'] + rel
}

/// Whether `rel` survives `pattern` with the given exclusions.
pub open spec fn keeps(pattern: Seq<char>, excls: Seq<Seq<char>>, dir: Seq<char>, rel: Seq<char>) -> bool {
    &&& glob_matches(trim_dot_slash(pattern), rel)
    &&& !ignored(rel)
    &&& !excluded_by_any(excls, full_path(dir, rel))
}

/// The files of the snapshot that `pattern` yields, in snapshot order,
/// each written from the root directory as `./<path>`.
pub open spec fn matching(
    pattern: Seq<char>,
    excls: Seq<Seq<char>>,
    dir: Seq<char>,
    files: Seq<Seq<char>>,
) -> Seq<Seq<char>>
    decreases files.len(),
{
    if files.len() == 0 {
        seq![]
    } else {
        let r = matching(pattern, excls, dir, files.drop_last());
        if keeps(pattern, excls, dir, files.last()) {
            r.push(dot_path(files.last()))
        } else {
            r
        }
    }
}

/// Removes the leading `./` of a local file path.
pub fn trim_first_character(file_path: &str) -> (r: &str)
    ensures
        r@ == trim_dot_slash(file_path@),
{
    let n = file_path.unicode_len();
    if n >= 2 && file_path.get_char(0) == '.' && file_path.get_char(1) == '/' {
        file_path.substring_char(2, n)
    } else {
        file_path
    }
}

/// Whether `a` and `b` hold the same characters.
pub fn same_chars(a: &[char], b: &[char]) -> (r: bool)
    ensures
        r == (a@ == b@),
{
    let r = a.len() == b.len() && occurs_at(a, b, 0);
    if a.len() == b.len() {
        assert(a@.subrange(0, b@.len() as int) == a@);
    }
    r
}

/// `a` followed by `b`.
pub fn concat_chars(a: &[char], b: &[char]) -> (r: Vec<char>)
    ensures
        r@ == a@ + b@,
{
    let mut r: Vec<char> = Vec::new();
    let mut i: usize = 0;
    while i < a.len()
        invariant
            i <= a.len(),
            r@ == a@.take(i as int),
        decreases a.len() - i,
    {
        r.push(a[i]);
        i = i + 1;
        assert(r@ == a@.take(i as int));
    }
    let mut j: usize = 0;
    while j < b.len()
        invariant
            j <= b.len(),
            r@ == a@ + b@.take(j as int),
        decreases b.len() - j,
    {
        r.push(b[j]);
        j = j + 1;
        assert(r@ == a@ + b@.take(j as int));
    }
    assert(a@.take(a.len() as int) == a@);
    assert(b@.take(b.len() as int) == b@);
    r
}

/// Whether the relative path falls in the fixed ignore set.
pub fn is_ignored(rel: &[char]) -> (r: bool)
    ensures
        r == ignored(rel@),
{
    let segs = split_chars(rel, '/', false);
    let ghost sv = char_vecs(segs@);
    proof {
        crate::paths::lemma_split_nonempty(rel@, '/', false);
    }
    let test_utils: Vec<char> = vec!['t', 'e', 's', 't', 'U', 't', 'i', 'l', 's'];
    let tests: Vec<char> = vec!['_', '_', 't', 'e', 's', 't', 's', '_', '_'];
    let types: Vec<char> = vec!['t', 'y', 'p', 'e', 's', '.', 'd', '.', 't', 's'];
    let index: Vec<char> = vec!['i', 'n', 'd', 'e', 'x', '.', 't', 's'];
    let last = segs.len() - 1;
    let mut k: usize = 0;
    while k < last
        invariant
            k <= last,
            last + 1 == segs.len(),
            sv == char_vecs(segs@),
            sv == split_on(rel@, '/', false),
            test_utils@ == seq!['t', 'e', 's', 't', 'U', 't', 'i', 'l', 's'],
            tests@ == seq!['_', '_', 't', 'e', 's', 't', 's', '_', '_'],
            forall|m: int| 0 <= m < k ==> !ignored_dir(#[trigger] sv[m]),
        decreases last - k,
    {
        if same_chars(segs[k].as_slice(), test_utils.as_slice()) || same_chars(
            segs[k].as_slice(),
            tests.as_slice(),
        ) {
            assert(ignored_dir(sv[k as int]));
            return true;
        }
        k = k + 1;
    }
    let r = same_chars(segs[last].as_slice(), types.as_slice()) || same_chars(
        segs[last].as_slice(),
        index.as_slice(),
    );
    assert(sv.last() == segs@[last as int]@);
    r
}

/// Whether any exclusion pattern rejects `s`.
fn rejected_by_any(excls: &Vec<Vec<char>>, s: &[char]) -> (r: bool)
    ensures
        r == excluded_by_any(char_vecs(excls@), s@),
{
    let ghost ev = char_vecs(excls@);
    let mut k: usize = 0;
    while k < excls.len()
        invariant
            k <= excls.len(),
            ev == char_vecs(excls@),
            forall|m: int| 0 <= m < k ==> !excluded_by(#[trigger] ev[m], s@),
        decreases excls.len() - k,
    {
        if exclusion_rejects(excls[k].as_slice(), s) {
            assert(excluded_by(ev[k as int], s@));
            return true;
        }
        k = k + 1;
    }
    false
}

/// The characters of each string, in order.
pub fn char_vecs_of(v: &[String]) -> (r: Vec<Vec<char>>)
    ensures
        char_vecs(r@) == views_of(v@),
{
    let mut r: Vec<Vec<char>> = Vec::new();
    let mut i: usize = 0;
    while i < v.len()
        invariant
            i <= v.len(),
            char_vecs(r@) == views_of(v@).take(i as int),
        decreases v.len() - i,
    {
        let c = chars_of(v[i].as_str());
        assert(c@ == v@[i as int]@);
        let ghost r0 = r@;
        r.push(c);
        assert(r@ == r0.push(c));
        assert(char_vecs(r@) =~= char_vecs(r0).push(c@));
        i = i + 1;
        assert(char_vecs(r@) =~= views_of(v@).take(i as int));
    }
    assert(views_of(v@).take(v.len() as int) == views_of(v@));
    r
}

/// The files of the snapshot `files` that the inclusion pattern
/// `file_pattern` yields under `source_folder`, minus the ignore set and
/// whatever an exclusion pattern rejects, each written as `./<path>`.
/// Fails with `InvalidPattern` when the pattern is not a valid glob.
pub fn find_files_matching(
    file_pattern: &str,
    source_folder: &str,
    exclusion_patterns: &[String],
    files: &[String],
) -> (r: Result<Vec<String>, IndexError>)
    ensures
        r is Ok <==> glob_valid(trim_dot_slash(file_pattern@)),
        match r {
            Ok(v) => views_of(v@) == matching(
                file_pattern@,
                views_of(exclusion_patterns@),
                source_folder@,
                views_of(files@),
            ),
            Err(e) => match e {
                IndexError::InvalidPattern(s) => s@ == file_pattern@,
                _ => false,
            },
        },
{
    let trimmed = trim_first_character(file_pattern);
    if !pattern_compiles(trimmed) {
        return Err(IndexError::InvalidPattern(file_pattern.to_string()));
    }
    let dir = chars_of(source_folder);
    let slash: Vec<char> = vec!['/'];
    let dot_slash: Vec<char> = vec!['.', '/'];
    let excls = char_vecs_of(exclusion_patterns);
    let ghost fv = views_of(files@);
    let ghost ev = views_of(exclusion_patterns@);
    let mut out: Vec<String> = Vec::new();
    let mut i: usize = 0;
    while i < files.len()
        invariant
            i <= files.len(),
            glob_valid(trimmed@),
            trimmed@ == trim_dot_slash(file_pattern@),
            dir@ == source_folder@,
            slash@ == seq!['/'],
            dot_slash@ == seq!['.', '/'],
            char_vecs(excls@) == ev,
            ev == views_of(exclusion_patterns@),
            fv == views_of(files@),
            views_of(out@) == matching(file_pattern@, ev, dir@, fv.take(i as int)),
        decreases files.len() - i,
    {
        let rel = chars_of(files[i].as_str());
        assert(fv.take(i + 1).drop_last() == fv.take(i as int));
        assert(fv.take(i + 1).last() == rel@);
        if pattern_matches(trimmed, files[i].as_str()) && !is_ignored(rel.as_slice()) {
            let head = concat_chars(dir.as_slice(), slash.as_slice());
            let full = concat_chars(head.as_slice(), rel.as_slice());
            if !rejected_by_any(&excls, full.as_slice()) {
                let shown = concat_chars(dot_slash.as_slice(), rel.as_slice());
                let ghost before = views_of(out@);
                out.push(string_of(shown.as_slice()));
                assert(views_of(out@) == before.push(shown@));
            }
        }
        i = i + 1;
    }
    assert(fv.take(files.len() as int) == fv);
    Ok(out)
}

} // verus!
