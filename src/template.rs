//! The export-line template: where a resolved path goes in each line.

use vstd::prelude::*;

use crate::error::IndexError;
use crate::text::{
    chars_of, copy_range, find_from, find_last_before, first_at, last_before, lemma_first_at,
    lemma_last_before, string_of,
};

verus! {

/// The text between the first and the last backtick of `b`, when the two
/// enclose at least one character.
pub open spec fn template_text(b: Seq<char>) -> Option<Seq<char>> {
    let a = first_at(b, seq!['`'], 0);
    let z = last_before(b, '`', b.len() as int);
    if a >= 0 && z >= a + 2 {
        Some(b.subrange(a + 1, z))
    } else {
        None
    }
}

/// The text of a template before and after its placeholder: the placeholder
/// runs from the first `${` to the last `}`, enclosing at least one character.
pub open spec fn template_parts(s: Seq<char>) -> Option<(Seq<char>, Seq<char>)> {
    let p = first_at(s, seq!['$', '{'], 0);
    let z = last_before(s, '}', s.len() as int);
    if p >= 0 && z >= p + 3 {
        Some((s.take(p), s.subrange(z + 1, s.len() as int)))
    } else {
        None
    }
}

/// The text placed before the path in the default export line.
pub open spec fn default_before() -> Seq<char> {
    seq!['e', 'x', 'p', 'o', 'r', 't', ' ', '*', ' ', 'f', 'r', 'o', 'm', ' ', '"']
}

/// The text placed after the path in the default export line.
pub open spec fn default_after() -> Seq<char> {
    seq!['"']
}

/// An export line is `before`, then the path, then `after`.
pub struct ExportTemplate {
    pub before: String,
    pub after: String,
}

impl ExportTemplate {
    /// The fixed format `export * from "<path>"`.
    pub fn default_format() -> (r: ExportTemplate)
        ensures
            r.before@ == default_before(),
            r.after@ == default_after(),
    {
        let before: Vec<char> = vec!['e', 'x', 'p', 'o', 'r', 't', ' ', '*', ' ', 'f', 'r', 'o', 'm', ' ', '"'];
        let after: Vec<char> = vec!['"'];
        ExportTemplate { before: string_of(before.as_slice()), after: string_of(after.as_slice()) }
    }
}

/// Reads the export template of a declaration body: the backtick-delimited
/// string, split around its `${...}` placeholder.
pub fn extract_template(body: &str) -> (r: Result<ExportTemplate, IndexError>)
    ensures
        match r {
            Ok(t) => {
                &&& template_text(body@) is Some
                &&& template_parts(template_text(body@)->Some_0) == Some((t.before@, t.after@))
            },
            Err(e) => {
                &&& template_text(body@) is None ==> e == IndexError::NoExportTemplate
                &&& template_text(body@) is Some ==> {
                    &&& template_parts(template_text(body@)->Some_0) is None
                    &&& e == IndexError::MalformedTemplate
                }
            },
        },
{
    let b = chars_of(body);
    let tick: Vec<char> = vec!['`'];
    assert(tick@ == seq!['`']);
    proof {
        lemma_first_at(b@, tick@, 0);
        lemma_last_before(b@, '`', b@.len() as int);
    }
    let a = match find_from(b.as_slice(), tick.as_slice(), 0) {
        Some(a) => a,
        None => return Err(IndexError::NoExportTemplate),
    };
    let z = match find_last_before(b.as_slice(), '`', b.len()) {
        Some(z) => z,
        None => return Err(IndexError::NoExportTemplate),
    };
    if z < 2 || z - 2 < a {
        return Err(IndexError::NoExportTemplate);
    }
    let s = copy_range(b.as_slice(), a + 1, z);
    let open: Vec<char> = vec!['$', '{'];
    assert(open@ == seq!['$', '{']);
    proof {
        lemma_first_at(s@, open@, 0);
        lemma_last_before(s@, '}', s@.len() as int);
    }
    let p = match find_from(s.as_slice(), open.as_slice(), 0) {
        Some(p) => p,
        None => return Err(IndexError::MalformedTemplate),
    };
    let e = match find_last_before(s.as_slice(), '}', s.len()) {
        Some(e) => e,
        None => return Err(IndexError::MalformedTemplate),
    };
    if e < 3 || e - 3 < p {
        return Err(IndexError::MalformedTemplate);
    }
    let before = copy_range(s.as_slice(), 0, p);
    let after = copy_range(s.as_slice(), e + 1, s.len());
    Ok(ExportTemplate { before: string_of(before.as_slice()), after: string_of(after.as_slice()) })
}

} // verus!
