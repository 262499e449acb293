//! Finding the `@index(...)` directive in the root file's text.

use vstd::prelude::*;

use crate::error::IndexError;
use crate::text::{
    chars_of, copy_range, find_from, find_last_before, first_at, is_eol, last_before, string_of,
};

verus! {

/// The literal that opens a directive.
pub open spec fn directive_marker() -> Seq<char> {
    seq!['@', 'i', 'n', 'd', 'e', 'x', '(']
}

/// Where the line that starts at `i` ends: the first line break at or after
/// `i`, or the end of the text.
pub open spec fn line_end(t: Seq<char>, i: int) -> int
    decreases t.len() - i,
{
    if i < 0 || i >= t.len() {
        t.len() as int
    } else if is_eol(t[i]) {
        i
    } else {
        line_end(t, i + 1)
    }
}

/// The body of a directive on `line`: the text after the first `@index(` up
/// to the last `)` of the line, which must hold at least one character.
pub open spec fn directive_body(line: Seq<char>) -> Option<Seq<char>> {
    let m = first_at(line, directive_marker(), 0);
    let c = last_before(line, ')', line.len() as int);
    if m >= 0 && c >= m + 8 {
        Some(line.subrange(m + 7, c))
    } else {
        None
    }
}

/// The body of the first directive line at or after the line start `i`.
pub open spec fn locate_from(t: Seq<char>, i: int) -> Option<Seq<char>>
    decreases t.len() + 1 - i,
    via locate_from_decreases
{
    if i < 0 || i > t.len() {
        None
    } else {
        let e = line_end(t, i);
        let found = directive_body(t.subrange(i, e));
        if found is Some {
            found
        } else if e >= t.len() {
            None
        } else {
            locate_from(t, e + 1)
        }
    }
}

#[via_fn]
proof fn locate_from_decreases(t: Seq<char>, i: int) {
    if 0 <= i <= t.len() {
        lemma_line_end(t, i);
    }
}

/// The body of the first directive in the text.
pub open spec fn locate(t: Seq<char>) -> Option<Seq<char>> {
    locate_from(t, 0)
}

/// The first line of the text, up to its first `\n`.
pub open spec fn header_of(t: Seq<char>) -> Seq<char> {
    let k = first_at(t, seq!['\n'], 0);
    if k < 0 {
        t
    } else {
        t.take(k)
    }
}

pub proof fn lemma_line_end(t: Seq<char>, i: int)
    requires
        0 <= i <= t.len(),
    ensures
        i <= line_end(t, i) <= t.len(),
        line_end(t, i) < t.len() ==> is_eol(t[line_end(t, i)]),
        forall|k: int| i <= k < line_end(t, i) ==> !is_eol(#[trigger] t[k]),
    decreases t.len() - i,
{
    if i < t.len() && !is_eol(t[i]) {
        lemma_line_end(t, i + 1);
    }
}

/// A directive found in a root file: its first line, kept across
/// regeneration, and the text between the directive's parentheses.
pub struct Declaration {
    pub header_line: String,
    pub raw_body: String,
}

/// The first line of `t`.
fn header_line_of(t: &Vec<char>) -> (r: Vec<char>)
    ensures
        r@ == header_of(t@),
{
    let nl: Vec<char> = vec!['\n'];
    assert(nl@ == seq!['\n']);
    assert(t@.subrange(0, t@.len() as int) == t@);
    match find_from(t.as_slice(), nl.as_slice(), 0) {
        Some(k) => {
            proof {
                crate::text::lemma_first_at(t@, nl@, 0);
            }
            copy_range(t.as_slice(), 0, k)
        },
        None => copy_range(t.as_slice(), 0, t.len()),
    }
}

/// The end of the line of `t` that starts at `i`.
fn line_end_exec(t: &Vec<char>, i: usize) -> (r: usize)
    requires
        i <= t.len(),
    ensures
        r as int == line_end(t@, i as int),
{
    let mut k: usize = i;
    while k < t.len() && t[k] != '\n' && t[k] != '\r'
        invariant
            i <= k <= t.len(),
            line_end(t@, i as int) == line_end(t@, k as int),
        decreases t.len() - k,
    {
        k = k + 1;
    }
    k
}

/// The directive body on `line`, if the line holds a directive.
pub fn directive_body_of(line: &[char]) -> (r: Option<Vec<char>>)
    ensures
        match r {
            Some(b) => directive_body(line@) == Some(b@),
            None => directive_body(line@) is None,
        },
{
    let marker: Vec<char> = vec!['@', 'i', 'n', 'd', 'e', 'x', '('];
    assert(marker@ == directive_marker());
    let m = find_from(line, marker.as_slice(), 0);
    let c = find_last_before(line, ')', line.len());
    match (m, c) {
        (Some(m), Some(c)) => {
            proof {
                crate::text::lemma_first_at(line@, marker@, 0);
                crate::text::lemma_last_before(line@, ')', line@.len() as int);
            }
            if c >= 8 && c - 8 >= m {
                Some(copy_range(line, m + 7, c))
            } else {
                None
            }
        },
        _ => None,
    }
}

/// Finds the first directive of `text` and the file's first line.
///
/// Only the first directive counts; any later one is ignored.
pub fn locate_declaration(text: &str) -> (r: Result<Declaration, IndexError>)
    ensures
        match r {
            Ok(d) => locate(text@) == Some(d.raw_body@) && d.header_line@ == header_of(text@),
            Err(e) => locate(text@) is None && e == IndexError::DeclarationNotFound,
        },
{
    let t = chars_of(text);
    let mut i: usize = 0;
    loop
        invariant
            i <= t.len(),
            t@ == text@,
            locate(t@) == locate_from(t@, i as int),
        decreases t.len() + 1 - i,
    {
        let e = line_end_exec(&t, i);
        proof {
            lemma_line_end(t@, i as int);
        }
        let line = copy_range(t.as_slice(), i, e);
        match directive_body_of(line.as_slice()) {
            Some(b) => {
                let header = header_line_of(&t);
                return Ok(Declaration { header_line: string_of(header.as_slice()), raw_body: string_of(b.as_slice()) });
            },
            None => {},
        }
        if e == t.len() {
            return Err(IndexError::DeclarationNotFound);
        }
        i = e + 1;
    }
}

} // verus!
