//! Splitting a declaration body into inclusion and exclusion patterns.

use vstd::prelude::*;

use crate::error::IndexError;
use crate::text::{chars_of, copy_range, find_from, first_at, lemma_first_at, string_of};

verus! {

/// The most exclusion patterns a declaration may list.
pub const MAX_EXCLUSIONS: usize = 9;

/// The quoted literals of `b` from position `i` on: each double-quoted,
/// non-empty run that is directly followed by `,` or `]`. A quote closes at
/// the next quote; scanning resumes after it.
pub open spec fn literals_from(b: Seq<char>, i: int) -> Seq<Seq<char>>
    decreases b.len() + 1 - i,
    via literals_from_decreases
{
    let q = first_at(b, seq!['"'], i);
    if i < 0 || q < 0 {
        seq![]
    } else {
        let c = first_at(b, seq!['"'], q + 1);
        if c < 0 {
            seq![]
        } else {
            let lit = b.subrange(q + 1, c);
            let rest = literals_from(b, c + 1);
            if lit.len() > 0 && c + 1 < b.len() && (b[c + 1] == ',' || b[c + 1] == ']') {
                seq![lit] + rest
            } else {
                rest
            }
        }
    }
}

#[via_fn]
proof fn literals_from_decreases(b: Seq<char>, i: int) {
    if i >= 0 {
        lemma_first_at(b, seq!['"'], i);
        let q = first_at(b, seq!['"'], i);
        if q >= 0 {
            lemma_first_at(b, seq!['"'], q + 1);
        }
    }
}

/// The quoted literals of a declaration body, in order.
pub open spec fn literals(b: Seq<char>) -> Seq<Seq<char>> {
    literals_from(b, 0)
}

/// A pattern that starts with `!` excludes files.
pub open spec fn is_exclusion(p: Seq<char>) -> bool {
    p.len() > 0 && p[0] == '!'
}

/// The inclusion patterns among `ps`, in order.
pub open spec fn inclusions_of(ps: Seq<Seq<char>>) -> Seq<Seq<char>>
    decreases ps.len(),
{
    if ps.len() == 0 {
        seq![]
    } else if is_exclusion(ps[0]) {
        inclusions_of(ps.drop_first())
    } else {
        seq![ps[0]] + inclusions_of(ps.drop_first())
    }
}

/// The exclusion patterns among `ps`, in order.
pub open spec fn exclusions_of(ps: Seq<Seq<char>>) -> Seq<Seq<char>>
    decreases ps.len(),
{
    if ps.len() == 0 {
        seq![]
    } else if is_exclusion(ps[0]) {
        seq![ps[0]] + exclusions_of(ps.drop_first())
    } else {
        exclusions_of(ps.drop_first())
    }
}

/// The character sequences held by a list of strings.
pub open spec fn views_of(v: Seq<String>) -> Seq<Seq<char>> {
    v.map_values(|s: String| s@)
}

/// The patterns of a declaration, each class in the order written.
pub struct PatternSet {
    pub inclusions: Vec<String>,
    pub exclusions: Vec<String>,
}

impl PatternSet {
    /// The inclusion patterns as character sequences.
    pub open spec fn inclusions_view(&self) -> Seq<Seq<char>> {
        views_of(self.inclusions@)
    }

    /// The exclusion patterns as character sequences.
    pub open spec fn exclusions_view(&self) -> Seq<Seq<char>> {
        views_of(self.exclusions@)
    }
}

/// Extracts the quoted patterns of a declaration body and sorts them into
/// inclusions and exclusions. Fails when there are more than
/// `MAX_EXCLUSIONS` exclusions.
pub fn classify_patterns(body: &str) -> (r: Result<PatternSet, IndexError>)
    ensures
        match r {
            Ok(ps) => {
                &&& exclusions_of(literals(body@)).len() <= MAX_EXCLUSIONS
                &&& ps.inclusions_view() == inclusions_of(literals(body@))
                &&& ps.exclusions_view() == exclusions_of(literals(body@))
            },
            Err(e) => {
                &&& exclusions_of(literals(body@)).len() > MAX_EXCLUSIONS
                &&& e == IndexError::TooManyExclusions(
                    exclusions_of(literals(body@)).len() as usize,
                )
            },
        },
{
    let b = chars_of(body);
    let quote: Vec<char> = vec!['"'];
    assert(quote@ == seq!['"']);
    let mut inclusions: Vec<String> = Vec::new();
    let mut exclusions: Vec<String> = Vec::new();
    let mut i: usize = 0;
    loop
        invariant
            i <= b.len(),
            b@ == body@,
            quote@ == seq!['"'],
            inclusions_of(literals(b@)) == views_of(inclusions@) + inclusions_of(
                literals_from(b@, i as int),
            ),
            exclusions_of(literals(b@)) == views_of(exclusions@) + exclusions_of(
                literals_from(b@, i as int),
            ),
        ensures
            literals_from(b@, i as int).len() == 0,
        decreases b.len() + 1 - i,
    {
        proof {
            lemma_first_at(b@, quote@, i as int);
        }
        let q = match find_from(b.as_slice(), quote.as_slice(), i) {
            Some(q) => q,
            None => break,
        };
        proof {
            lemma_first_at(b@, quote@, q + 1);
        }
        let c = match find_from(b.as_slice(), quote.as_slice(), q + 1) {
            Some(c) => c,
            None => break,
        };
        let ghost rest = literals_from(b@, c + 1);
        if c > q + 1 && c + 1 < b.len() && (b[c + 1] == ',' || b[c + 1] == ']') {
            let lit = copy_range(b.as_slice(), q + 1, c);
            let ghost all = literals_from(b@, i as int);
            assert(all == seq![lit@] + rest);
            assert(all[0] == lit@);
            assert(all.drop_first() == rest);
            let ghost ex0 = views_of(exclusions@);
            let ghost in0 = views_of(inclusions@);
            if lit[0] == '!' {
                exclusions.push(string_of(lit.as_slice()));
                assert(views_of(exclusions@) == ex0.push(lit@));
                assert(exclusions_of(all) == seq![lit@] + exclusions_of(rest));
                assert(inclusions_of(all) == inclusions_of(rest));
                assert(ex0 + (seq![lit@] + exclusions_of(rest)) == ex0.push(lit@)
                    + exclusions_of(rest));
            } else {
                inclusions.push(string_of(lit.as_slice()));
                assert(views_of(inclusions@) == in0.push(lit@));
                assert(inclusions_of(all) == seq![lit@] + inclusions_of(rest));
                assert(exclusions_of(all) == exclusions_of(rest));
                assert(in0 + (seq![lit@] + inclusions_of(rest)) == in0.push(lit@)
                    + inclusions_of(rest));
            }
        }
        i = c + 1;
    }
    assert(views_of(inclusions@) + Seq::<Seq<char>>::empty() == views_of(inclusions@));
    assert(views_of(exclusions@) + Seq::<Seq<char>>::empty() == views_of(exclusions@));
    if exclusions.len() > MAX_EXCLUSIONS {
        return Err(IndexError::TooManyExclusions(exclusions.len()));
    }
    Ok(PatternSet { inclusions, exclusions })
}

} // verus!
