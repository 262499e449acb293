//! Properties that relate several stages or several runs.

use vstd::prelude::*;

use crate::classify::{exclusions_of, inclusions_of, literals};
use crate::locate::{directive_body, directive_marker, header_of, lemma_line_end, line_end, locate, locate_from};
use crate::paths::{excluded_by, excluded_by_any, exclusion_pieces, gapped_from, split_on, strip_bang};
use crate::pipeline::{
    merge_unique, output_of, plan_of, resolved, Config, OperatingMode,
};
use crate::resolve::{dot_path, glob_matches, ignored, keeps, matching, trim_dot_slash};
use crate::text::{first_at, is_eol, lemma_first_at};

verus! {

proof fn lemma_push_contains(r: Seq<Seq<char>>, y: Seq<char>, x: Seq<char>)
    ensures
        r.push(y).contains(x) <==> (r.contains(x) || x == y),
{
    if r.contains(x) {
        let i = choose|i: int| 0 <= i < r.len() && r[i] == x;
        assert(r.push(y)[i] == x);
    }
    if x == y {
        assert(r.push(y)[r.len() as int] == x);
    }
    if r.push(y).contains(x) {
        let i = choose|i: int| 0 <= i < r.len() + 1 && r.push(y)[i] == x;
        if i < r.len() {
            assert(r[i] == x);
        }
    }
}

proof fn lemma_matching_contains(
    p: Seq<char>,
    excls: Seq<Seq<char>>,
    dir: Seq<char>,
    files: Seq<Seq<char>>,
    x: Seq<char>,
)
    ensures
        matching(p, excls, dir, files).contains(x) <==> exists|f: int|
            0 <= f < files.len() && keeps(p, excls, dir, #[trigger] files[f]) && x == dot_path(
                files[f],
            ),
    decreases files.len(),
{
    if files.len() > 0 {
        let init = files.drop_last();
        lemma_matching_contains(p, excls, dir, init, x);
        let r = matching(p, excls, dir, init);
        lemma_push_contains(r, dot_path(files.last()), x);
        if r.contains(x) {
            let f = choose|f: int|
                0 <= f < init.len() && keeps(p, excls, dir, #[trigger] init[f]) && x == dot_path(
                    init[f],
                );
            assert(files[f] == init[f]);
        }
        if exists|f: int|
            0 <= f < files.len() && keeps(p, excls, dir, #[trigger] files[f]) && x == dot_path(
                files[f],
            ) {
            let f = choose|f: int|
                0 <= f < files.len() && keeps(p, excls, dir, #[trigger] files[f]) && x == dot_path(
                    files[f],
                );
            if f < files.len() - 1 {
                assert(init[f] == files[f]);
            }
        }
    }
}

proof fn lemma_merge(acc: Seq<Seq<char>>, xs: Seq<Seq<char>>, x: Seq<char>)
    ensures
        merge_unique(acc, xs).contains(x) <==> (acc.contains(x) || xs.contains(x)),
        acc.no_duplicates() ==> merge_unique(acc, xs).no_duplicates(),
    decreases xs.len(),
{
    if xs.len() > 0 {
        let init = xs.drop_last();
        lemma_merge(acc, init, x);
        let r = merge_unique(acc, init);
        lemma_push_contains(r, xs.last(), x);
        lemma_push_contains(init, xs.last(), x);
        assert(xs == init.push(xs.last()));
        if acc.no_duplicates() && !r.contains(xs.last()) {
            assert(r.push(xs.last()).no_duplicates());
        }
    }
}

proof fn lemma_resolved_contains(
    incls: Seq<Seq<char>>,
    excls: Seq<Seq<char>>,
    dir: Seq<char>,
    files: Seq<Seq<char>>,
    x: Seq<char>,
)
    ensures
        resolved(incls, excls, dir, files).contains(x) <==> exists|k: int|
            0 <= k < incls.len() && #[trigger] matching(incls[k], excls, dir, files).contains(x),
        resolved(incls, excls, dir, files).no_duplicates(),
    decreases incls.len(),
{
    if incls.len() > 0 {
        let init = incls.drop_last();
        lemma_resolved_contains(init, excls, dir, files, x);
        lemma_merge(resolved(init, excls, dir, files), matching(incls.last(), excls, dir, files), x);
        if exists|k: int| 0 <= k < incls.len() && #[trigger] matching(incls[k], excls, dir, files).contains(x) {
            let k = choose|k: int| 0 <= k < incls.len() && #[trigger] matching(incls[k], excls, dir, files).contains(x);
            if k < incls.len() - 1 {
                assert(init[k] == incls[k]);
            }
        }
        if resolved(init, excls, dir, files).contains(x) {
            let k = choose|k: int| 0 <= k < init.len() && #[trigger] matching(init[k], excls, dir, files).contains(x);
            assert(incls[k] == init[k]);
        }
    }
}

/// Resolution yields each path once, and exactly the paths `./<f>` of the
/// snapshot files `f` that some inclusion pattern matches, that are not in
/// the ignore set, and that no exclusion pattern rejects.
pub proof fn lemma_resolved_exact(
    incls: Seq<Seq<char>>,
    excls: Seq<Seq<char>>,
    dir: Seq<char>,
    files: Seq<Seq<char>>,
)
    ensures
        resolved(incls, excls, dir, files).no_duplicates(),
        forall|x: Seq<char>|
            #[trigger] resolved(incls, excls, dir, files).contains(x) <==> exists|k: int, f: int|
                0 <= k < incls.len() && 0 <= f < files.len() && x == dot_path(files[f]) && keeps(
                    #[trigger] incls[k],
                    excls,
                    dir,
                    #[trigger] files[f],
                ),
{
    assert forall|x: Seq<char>|
        #[trigger] resolved(incls, excls, dir, files).contains(x) <==> exists|k: int, f: int|
            0 <= k < incls.len() && 0 <= f < files.len() && x == dot_path(files[f]) && keeps(
                #[trigger] incls[k],
                excls,
                dir,
                #[trigger] files[f],
            ) by {
        lemma_resolved_contains(incls, excls, dir, files, x);
        if resolved(incls, excls, dir, files).contains(x) {
            let k = choose|k: int| 0 <= k < incls.len() && #[trigger] matching(incls[k], excls, dir, files).contains(x);
            lemma_matching_contains(incls[k], excls, dir, files, x);
        }
        if exists|k: int, f: int|
            0 <= k < incls.len() && 0 <= f < files.len() && x == dot_path(files[f]) && keeps(
                #[trigger] incls[k],
                excls,
                dir,
                #[trigger] files[f],
            ) {
            let (k, f) = choose|k: int, f: int|
                0 <= k < incls.len() && 0 <= f < files.len() && x == dot_path(files[f]) && keeps(
                    #[trigger] incls[k],
                    excls,
                    dir,
                    #[trigger] files[f],
                );
            lemma_matching_contains(incls[k], excls, dir, files, x);
            assert(matching(incls[k], excls, dir, files).contains(x));
        }
    }
    lemma_resolved_contains(incls, excls, dir, files, seq![]);
}

/// With no exclusion patterns, resolution yields each path once, and
/// exactly the paths `./<f>` of the snapshot files `f` that at least one
/// inclusion pattern matches, minus the ignore set.
pub proof fn lemma_resolved_without_exclusions(
    incls: Seq<Seq<char>>,
    dir: Seq<char>,
    files: Seq<Seq<char>>,
)
    ensures
        resolved(incls, seq![], dir, files).no_duplicates(),
        forall|x: Seq<char>|
            #[trigger] resolved(incls, seq![], dir, files).contains(x) <==> exists|k: int, f: int|
                0 <= k < incls.len() && 0 <= f < files.len() && x == dot_path(files[f])
                    && glob_matches(trim_dot_slash(#[trigger] incls[k]), #[trigger] files[f])
                    && !ignored(files[f]),
{
    lemma_resolved_exact(incls, seq![], dir, files);
    assert forall|rel: Seq<char>| !excluded_by_any(seq![], #[trigger] crate::resolve::full_path(dir, rel)) by {}
}

proof fn lemma_split_literal(lit: Seq<char>, k: int)
    requires
        0 <= k <= lit.len(),
        forall|i: int| 0 <= i < lit.len() ==> lit[i] != '*',
    ensures
        split_on(seq!['*', '*'] + lit.take(k), '*', true) == seq![Seq::<char>::empty(), lit.take(k)],
    decreases k,
{
    let q = seq!['*', '*'] + lit.take(k);
    if k == 0 {
        assert(lit.take(0) == Seq::<char>::empty());
        assert(q == seq!['*', '*']);
        assert(q.drop_last() == seq!['*']);
        assert(seq!['*'].drop_last() == Seq::<char>::empty());
        assert(split_on(Seq::<char>::empty(), '*', true) == seq![Seq::<char>::empty()]);
        assert(split_on(seq!['*'], '*', true) =~= seq![Seq::<char>::empty(), Seq::<char>::empty()]);
    } else {
        lemma_split_literal(lit, k - 1);
        assert(q.drop_last() == seq!['*', '*'] + lit.take(k - 1));
        assert(q.last() == lit[k - 1]);
        assert(lit.take(k - 1).push(lit[k - 1]) == lit.take(k));
        assert(split_on(q, '*', true) =~= seq![Seq::<char>::empty(), lit.take(k)]);
    }
}

/// An exclusion `!**<lit>**`, whose literal holds no `*`, rejects exactly
/// the paths in which `lit` occurs with at least one character before it
/// and at least one after it.
pub proof fn lemma_exclusion_rejects_substring(lit: Seq<char>, path: Seq<char>)
    requires
        lit.len() > 0,
        forall|i: int| 0 <= i < lit.len() ==> lit[i] != '*',
    ensures
        excluded_by(seq!['!', '*', '*'] + lit + seq!['*', '*'], path) <==> exists|j: int|
            1 <= j && j + lit.len() < path.len() && #[trigger] path.subrange(j, j + lit.len()) == lit,
{
    let e = Seq::<char>::empty();
    let p = seq!['!', '*', '*'] + lit + seq!['*', '*'];
    let q = seq!['*', '*'] + lit;
    assert(strip_bang(p) == q + seq!['*', '*']);
    lemma_split_literal(lit, lit.len() as int);
    assert(lit.take(lit.len() as int) == lit);
    let q1 = q.push('*');
    let q2 = q1.push('*');
    assert(q + seq!['*', '*'] == q2);
    assert(q1.drop_last() == q);
    assert(q.last() == lit.last());
    assert(q1[q1.len() - 2] == lit[lit.len() - 1]);
    assert(split_on(q1, '*', true) == seq![e, lit].push(e));
    assert(q2.drop_last() == q1);
    assert(split_on(q2, '*', true) == seq![e, lit, e]);
    let pieces = seq![e, lit, e];
    assert(exclusion_pieces(p) == pieces);
    assert(pieces.drop_first() == seq![lit, e]);
    assert(seq![lit, e].drop_first() == seq![e]);
    assert(seq![e].drop_first() == Seq::<Seq<char>>::empty());
    if excluded_by(p, path) {
        let j0 = choose|j: int|
            0 <= j && j + pieces[0].len() <= path.len() && #[trigger] path.subrange(j, j + pieces[0].len())
                == pieces[0] && gapped_from(pieces.drop_first(), path, j + pieces[0].len() + 1);
        let rest = seq![lit, e];
        assert(rest[0] == lit);
        assert(rest.drop_first() == seq![e]);
        let j = choose|j: int|
            j0 + 1 <= j && j + rest[0].len() <= path.len() && #[trigger] path.subrange(j, j + rest[0].len())
                == rest[0] && gapped_from(rest.drop_first(), path, j + rest[0].len() + 1);
        let last = seq![e];
        assert(last[0] == e);
        let j2 = choose|j2: int|
            j + lit.len() + 1 <= j2 && j2 + last[0].len() <= path.len() && #[trigger] path.subrange(j2, j2 + last[0].len())
                == last[0] && gapped_from(last.drop_first(), path, j2 + last[0].len() + 1);
        assert(path.subrange(j, j + lit.len()) == lit);
    }
    if exists|j: int| 1 <= j && j + lit.len() < path.len() && #[trigger] path.subrange(j, j + lit.len()) == lit {
        let j = choose|j: int| 1 <= j && j + lit.len() < path.len() && #[trigger] path.subrange(j, j + lit.len()) == lit;
        let j2 = j + lit.len() + 1;
        let last = seq![e];
        let rest = seq![lit, e];
        assert(last[0] == e);
        assert(rest[0] == lit);
        assert(rest.drop_first() == last);
        assert(path.subrange(j2, j2 + last[0].len()) == last[0]);
        assert(gapped_from(last.drop_first(), path, j2 + 1));
        assert(gapped_from(last, path, j2));
        assert(path.subrange(j, j + rest[0].len()) == rest[0]);
        assert(gapped_from(rest, path, 1));
        assert(path.subrange(0, 0 + pieces[0].len() as int) == pieces[0]);
        assert(gapped_from(pieces, path, 0));
    }
}

proof fn lemma_line_end_extend(p: Seq<char>, x: Seq<char>, i: int)
    requires
        0 <= i <= p.len(),
        x.len() == 0 || is_eol(x[0]),
    ensures
        line_end(p + x, i) == line_end(p, i),
    decreases p.len() - i,
{
    if i == p.len() {
        if x.len() > 0 {
            assert((p + x)[i] == x[0]);
        }
    } else {
        assert((p + x)[i] == p[i]);
        if !is_eol(p[i]) {
            lemma_line_end_extend(p, x, i + 1);
        }
    }
}

/// A directive found in `p` is found at the same place once `p` is followed
/// by a line break and anything else.
proof fn lemma_locate_extend(p: Seq<char>, x: Seq<char>, i: int)
    requires
        0 <= i <= p.len(),
        locate_from(p, i) is Some,
        x.len() == 0 || is_eol(x[0]),
    ensures
        locate_from(p + x, i) == locate_from(p, i),
    decreases p.len() + 1 - i,
{
    let t = p + x;
    lemma_line_end_extend(p, x, i);
    lemma_line_end(p, i);
    let e = line_end(p, i);
    assert(t.subrange(i, e) == p.subrange(i, e));
    if directive_body(p.subrange(i, e)) is None {
        lemma_locate_extend(p, x, e + 1);
    }
}

/// A line break at the very end changes nothing that is found.
proof fn lemma_locate_trailing_break(p: Seq<char>, c: char, i: int)
    requires
        0 <= i <= p.len(),
        is_eol(c),
    ensures
        locate_from(p.push(c), i) == locate_from(p, i),
    decreases p.len() + 1 - i,
{
    let t = p.push(c);
    assert(t == p + seq![c]);
    lemma_line_end_extend(p, seq![c], i);
    lemma_line_end(p, i);
    let e = line_end(p, i);
    assert(t.subrange(i, e) == p.subrange(i, e));
    if directive_body(p.subrange(i, e)) is None {
        if e < p.len() {
            lemma_locate_trailing_break(p, c, e + 1);
        } else {
            let n = t.len() as int;
            assert(line_end(t, n) == n);
            assert(t.subrange(n, n) == Seq::<char>::empty());
            assert(first_at(Seq::<char>::empty(), directive_marker(), 0) == -1);
        }
    }
}

proof fn lemma_first_at_is(s: Seq<char>, pat: Seq<char>, i: int, m: int)
    requires
        0 <= i <= m,
        m + pat.len() <= s.len(),
        s.subrange(m, m + pat.len()) == pat,
        forall|j: int| i <= j < m ==> #[trigger] s.subrange(j, j + pat.len()) != pat,
    ensures
        first_at(s, pat, i) == m,
    decreases m - i,
{
    if i < m {
        assert(s.subrange(i, i + pat.len()) != pat);
        lemma_first_at_is(s, pat, i + 1, m);
    }
}

/// Rewrite mode is idempotent: when the file's first line holds the
/// directive, running again on the rewritten file, with the same snapshot,
/// writes the same file.
pub proof fn lemma_rewrite_idempotent(
    text: Seq<char>,
    dir: Seq<char>,
    files: Seq<Seq<char>>,
    errors: Seq<Seq<char>>,
    config: Config,
)
    requires
        config.mode == OperatingMode::Rewrite,
        output_of(text, dir, files, errors, config) is Some,
        locate(header_of(text)) is Some,
    ensures
        output_of(output_of(text, dir, files, errors, config)->Some_0, dir, files, errors, config)
            == output_of(text, dir, files, errors, config),
{
    let nl = seq!['\n'];
    let h = header_of(text);
    let out = output_of(text, dir, files, errors, config)->Some_0;
    let body = out.subrange(h.len() as int + 1, out.len() as int);
    assert(out == h + nl + body);
    lemma_first_at(text, nl, 0);
    let k = first_at(text, nl, 0);
    let x = if k < 0 {
        Seq::<char>::empty()
    } else {
        text.subrange(k, text.len() as int)
    };
    if k >= 0 {
        assert(text.subrange(k, k + 1) == nl);
        assert(text[k] == text.subrange(k, k + 1)[0]);
        assert(x[0] == text[k]);
    }
    assert(text == h + x);
    lemma_locate_extend(h, x, 0);
    assert(out == h + (nl + body));
    lemma_locate_extend(h, nl + body, 0);
    assert forall|j: int| 0 <= j < h.len() implies #[trigger] out.subrange(j, j + 1) != nl by {
        assert(text.subrange(j, j + 1) != nl);
        assert(out.subrange(j, j + 1) == text.subrange(j, j + 1));
    }
    assert(out.subrange(h.len() as int, h.len() as int + 1) == nl);
    lemma_first_at_is(out, nl, 0, h.len() as int);
    assert(out.take(h.len() as int) == h);
    assert(header_of(out) == h);
    assert(plan_of(out, config.templated) == plan_of(text, config.templated));
}

/// Append mode is not idempotent: on a file that ends with a line break, a
/// second run with the same snapshot appends the same lines again, so the
/// file then holds every export line twice.
pub proof fn lemma_append_repeats(
    text: Seq<char>,
    dir: Seq<char>,
    files: Seq<Seq<char>>,
    errors: Seq<Seq<char>>,
    config: Config,
)
    requires
        config.mode == OperatingMode::Append,
        output_of(text, dir, files, errors, config) is Some,
        text.len() > 0,
        is_eol(text.last()),
    ensures
        output_of(text + output_of(text, dir, files, errors, config)->Some_0, dir, files, errors, config)
            == output_of(text, dir, files, errors, config),
{
    let added = output_of(text, dir, files, errors, config)->Some_0;
    let p = text.drop_last();
    let c = text.last();
    assert(p.push(c) == text);
    lemma_locate_trailing_break(p, c, 0);
    let u = text + added;
    assert(u == p + (seq![c] + added));
    lemma_locate_extend(p, seq![c] + added, 0);
    assert(locate(u) == locate(text));
    let pt = plan_of(text, config.templated)->Some_0;
    let pu = plan_of(u, config.templated)->Some_0;
    assert(pu.1 == pt.1 && pu.2 == pt.2 && pu.3 == pt.3 && pu.4 == pt.4);
}

/// A declaration whose body holds no quoted literal resolves no file and
/// succeeds: rewrite mode keeps only the first line, append mode adds nothing.
pub proof fn lemma_no_literals_no_exports(
    text: Seq<char>,
    dir: Seq<char>,
    files: Seq<Seq<char>>,
    errors: Seq<Seq<char>>,
    config: Config,
)
    requires
        plan_of(text, config.templated) is Some,
        literals(locate(text)->Some_0).len() == 0,
    ensures
        output_of(text, dir, files, errors, config) == Some(
            if config.mode == OperatingMode::Rewrite {
                header_of(text) + seq!['\n']
            } else {
                Seq::<char>::empty()
            },
        ),
{
    let lits = literals(locate(text)->Some_0);
    assert(inclusions_of(lits) == Seq::<Seq<char>>::empty());
    assert(exclusions_of(lits) == Seq::<Seq<char>>::empty());
    let pm = plan_of(text, config.templated)->Some_0;
    assert(resolved(pm.1, pm.2, dir, files) == Seq::<Seq<char>>::empty());
    assert(header_of(text) + seq!['\n'] + Seq::<char>::empty() == header_of(text) + seq!['\n']);
}

} // verus!
