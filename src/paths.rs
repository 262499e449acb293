//! Path-level rules: splitting, the fixed ignore set, and the loose
//! glob-to-substring downgrade used for exclusion patterns.

use vstd::prelude::*;

use crate::text::{find_from, first_at, lemma_first_at, occurs_at};

verus! {

/// The character sequences held by a list of character vectors.
pub open spec fn char_vecs(v: Seq<Vec<char>>) -> Seq<Seq<char>> {
    v.map_values(|x: Vec<char>| x@)
}

/// `s` cut at each `sep`. With `collapse`, a run of several `sep` cuts once.
/// There is always at least one piece.
pub open spec fn split_on(s: Seq<char>, sep: char, collapse: bool) -> Seq<Seq<char>>
    decreases s.len(),
{
    if s.len() == 0 {
        seq![seq![]]
    } else {
        let r = split_on(s.drop_last(), sep, collapse);
        if s.last() != sep {
            r.update(r.len() - 1, r.last().push(s.last()))
        } else if collapse && s.len() >= 2 && s[s.len() - 2] == sep {
            r
        } else {
            r.push(seq![])
        }
    }
}

pub proof fn lemma_split_nonempty(s: Seq<char>, sep: char, collapse: bool)
    ensures
        split_on(s, sep, collapse).len() >= 1,
    decreases s.len(),
{
    if s.len() > 0 {
        lemma_split_nonempty(s.drop_last(), sep, collapse);
    }
}

/// Splits `s` as `split_on` does.
pub fn split_chars(s: &[char], sep: char, collapse: bool) -> (r: Vec<Vec<char>>)
    ensures
        char_vecs(r@) == split_on(s@, sep, collapse),
{
    let mut done: Vec<Vec<char>> = Vec::new();
    let mut cur: Vec<char> = Vec::new();
    let mut i: usize = 0;
    while i < s.len()
        invariant
            i <= s.len(),
            split_on(s@.take(i as int), sep, collapse) == char_vecs(done@).push(cur@),
        decreases s.len() - i,
    {
        let ghost pre = s@.take(i as int);
        let ghost next = s@.take(i + 1);
        assert(next.drop_last() == pre);
        assert(next.last() == s@[i as int]);
        proof {
            lemma_split_nonempty(pre, sep, collapse);
        }
        let c = s[i];
        if c != sep {
            cur.push(c);
            assert(split_on(next, sep, collapse) == char_vecs(done@).push(cur@));
        } else if collapse && i >= 1 && s[i - 1] == sep {
            assert(next[next.len() - 2] == s@[i - 1]);
        } else {
            let piece = cur;
            done.push(piece);
            cur = Vec::new();
            assert(char_vecs(done@) == char_vecs(done@.drop_last()).push(piece@));
            assert(split_on(next, sep, collapse) == char_vecs(done@).push(cur@));
        }
        i = i + 1;
    }
    assert(s@.take(s.len() as int) == s@);
    let last = cur;
    done.push(last);
    assert(char_vecs(done@) == char_vecs(done@.drop_last()).push(last@));
    done
}

/// Whether `pieces` occur in `s` in order, the first at or after `i`, each
/// later one at least one character after the end of the one before.
pub open spec fn gapped_from(pieces: Seq<Seq<char>>, s: Seq<char>, i: int) -> bool
    decreases pieces.len(),
{
    if pieces.len() == 0 {
        true
    } else {
        exists|j: int|
            i <= j && j + pieces[0].len() <= s.len() && #[trigger] s.subrange(
                j,
                j + pieces[0].len(),
            ) == pieces[0] && gapped_from(pieces.drop_first(), s, j + pieces[0].len() + 1)
    }
}

/// The pattern with a leading `!` removed.
pub open spec fn strip_bang(p: Seq<char>) -> Seq<char> {
    if p.len() > 0 && p[0] == '!' {
        p.drop_first()
    } else {
        p
    }
}

/// The literal pieces of an exclusion pattern: its leading `!` removed and
/// the rest cut at every run of `*`. Each cut stands for "one or more
/// characters"; anchored or character-class patterns cannot be expressed.
pub open spec fn exclusion_pieces(p: Seq<char>) -> Seq<Seq<char>> {
    split_on(strip_bang(p), '*', true)
}

/// Whether the exclusion pattern `p` rejects the path `s`: its pieces occur
/// in `s` in order, separated by at least one character, anywhere in `s`.
pub open spec fn excluded_by(p: Seq<char>, s: Seq<char>) -> bool {
    gapped_from(exclusion_pieces(p), s, 0)
}

/// Whether any of the exclusion patterns rejects `s`.
pub open spec fn excluded_by_any(ps: Seq<Seq<char>>, s: Seq<char>) -> bool {
    exists|k: int| 0 <= k < ps.len() && excluded_by(#[trigger] ps[k], s)
}

proof fn lemma_gapped_lower(pieces: Seq<Seq<char>>, s: Seq<char>, a: int, b: int)
    requires
        gapped_from(pieces, s, a),
        b <= a,
    ensures
        gapped_from(pieces, s, b),
{
    if pieces.len() > 0 {
        let j = choose|j: int|
            a <= j && j + pieces[0].len() <= s.len() && #[trigger] s.subrange(
                j,
                j + pieces[0].len(),
            ) == pieces[0] && gapped_from(pieces.drop_first(), s, j + pieces[0].len() + 1);
        assert(s.subrange(j, j + pieces[0].len()) == pieces[0]);
    }
}

/// Taking the earliest occurrence of the first piece loses nothing.
proof fn lemma_gapped_step(pieces: Seq<Seq<char>>, s: Seq<char>, i: int)
    requires
        pieces.len() > 0,
        0 <= i,
    ensures
        gapped_from(pieces, s, i) <==> {
            let j = first_at(s, pieces[0], i);
            j >= 0 && gapped_from(pieces.drop_first(), s, j + pieces[0].len() + 1)
        },
{
    lemma_first_at(s, pieces[0], i);
    let f = first_at(s, pieces[0], i);
    if gapped_from(pieces, s, i) {
        let j = choose|j: int|
            i <= j && j + pieces[0].len() <= s.len() && #[trigger] s.subrange(
                j,
                j + pieces[0].len(),
            ) == pieces[0] && gapped_from(pieces.drop_first(), s, j + pieces[0].len() + 1);
        assert(s.subrange(j, j + pieces[0].len()) == pieces[0]);
        assert(f >= 0 && f <= j);
        lemma_gapped_lower(pieces.drop_first(), s, j + pieces[0].len() + 1, f + pieces[0].len() + 1);
    }
    if f >= 0 && gapped_from(pieces.drop_first(), s, f + pieces[0].len() + 1) {
        assert(s.subrange(f, f + pieces[0].len()) == pieces[0]);
    }
}

/// Whether `pieces` occur in `s` as `gapped_from(.., 0)` describes.
pub fn gapped_match(pieces: &Vec<Vec<char>>, s: &[char]) -> (r: bool)
    ensures
        r == gapped_from(char_vecs(pieces@), s@, 0),
{
    let ghost all = char_vecs(pieces@);
    let mut pos: usize = 0;
    let mut k: usize = 0;
    assert(all.subrange(0, all.len() as int) == all);
    while k < pieces.len()
        invariant
            k <= pieces.len(),
            pos <= s.len(),
            all == char_vecs(pieces@),
            gapped_from(all, s@, 0) == gapped_from(all.subrange(k as int, all.len() as int), s@, pos as int),
        decreases pieces.len() - k,
    {
        let ghost rest = all.subrange(k as int, all.len() as int);
        proof {
            lemma_gapped_step(rest, s@, pos as int);
            assert(rest[0] == pieces@[k as int]@);
            assert(rest.drop_first() == all.subrange(k + 1, all.len() as int));
        }
        match find_from(s, pieces[k].as_slice(), pos) {
            None => {
                return false;
            },
            Some(j) => {
                proof {
                    lemma_first_at(s@, pieces@[k as int]@, pos as int);
                }
                if j + pieces[k].len() == s.len() {
                    let ghost after = all.subrange(k + 1, all.len() as int);
                    proof {
                        if after.len() > 0 {
                            lemma_gapped_step(after, s@, s.len() + 1);
                        }
                    }
                    return k + 1 == pieces.len();
                }
                pos = j + pieces[k].len() + 1;
                k = k + 1;
            },
        }
    }
    assert(all.subrange(k as int, all.len() as int).len() == 0);
    true
}

/// The pieces of an exclusion pattern, as `exclusion_pieces` states.
pub fn exclusion_pieces_of(p: &[char]) -> (r: Vec<Vec<char>>)
    ensures
        char_vecs(r@) == exclusion_pieces(p@),
{
    if p.len() > 0 && p[0] == '!' {
        let mut rest: Vec<char> = Vec::new();
        let mut i: usize = 1;
        while i < p.len()
            invariant
                1 <= i <= p.len(),
                rest@ == p@.subrange(1, i as int),
            decreases p.len() - i,
        {
            rest.push(p[i]);
            i = i + 1;
            assert(rest@ == p@.subrange(1, i as int));
        }
        assert(rest@ == p@.drop_first());
        split_chars(rest.as_slice(), '*', true)
    } else {
        split_chars(p, '*', true)
    }
}

/// Whether the exclusion pattern `p` rejects the path `s`.
pub fn exclusion_rejects(p: &[char], s: &[char]) -> (r: bool)
    ensures
        r == excluded_by(p@, s@),
{
    let pieces = exclusion_pieces_of(p);
    gapped_match(&pieces, s)
}

} // verus!
