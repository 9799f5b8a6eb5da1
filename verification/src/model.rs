//! The grammar, stated denotationally.
//!
//! Each rule is a spec function on the remaining input, a `Seq<char>`.  A
//! rule that can fail returns `Option`; a successful parse carries the input
//! left over after the rule, and the value the rule extracts.  The
//! zero-or-more rules always succeed and return the leftover input directly.
//! The parsing functions in [`crate::parser`] are verified against these
//! definitions, so this module is the single statement of what the parser
//! accepts and returns.

use vstd::prelude::*;

use crate::chars::{
    comment_pred, multispace_pred, pfx_len, space_pred, spec_trim, token_pred, value_pred,
    lemma_pfx_chars,
};

verus! {

/// One key/value directive, with the value already trimmed.
pub ghost struct SpecProperty {
    pub key: Seq<char>,
    pub value: Seq<char>,
}

/// One host block: the name on its `Host` line and its directives in source
/// order.
pub ghost struct SpecHost {
    pub name: Seq<char>,
    pub properties: Seq<SpecProperty>,
}

/// A token: one or more characters that are neither white space nor `=` nor
/// `#`.  Fails on an empty run.
pub open spec fn spec_string(s: Seq<char>) -> Option<(Seq<char>, Seq<char>)> {
    let n = pfx_len(s, token_pred());
    if n == 0 {
        None
    } else {
        Some((s.skip(n as int), s.take(n as int)))
    }
}

/// A comment: `#` and the rest of the line, the line break excluded.  A
/// carriage return ends the comment only as part of `\r\n`; a stray `\r`
/// makes the comment fail.
pub open spec fn spec_comment(s: Seq<char>) -> Option<Seq<char>> {
    if s.len() == 0 || s[0] != '#' {
        None
    } else {
        let t = s.skip(1);
        let n = pfx_len(t, comment_pred());
        if n < t.len() && t[n as int] == '\r' && !(n + 1 < t.len() && t[n as int + 1] == '\n') {
            None
        } else {
            Some(t.skip(n as int))
        }
    }
}

/// The key/value separator: a single `=`, or else one or more horizontal
/// spaces.
pub open spec fn spec_space_or_equals(s: Seq<char>) -> Option<Seq<char>> {
    if s.len() > 0 && s[0] == '=' {
        Some(s.skip(1))
    } else {
        let n = pfx_len(s, space_pred());
        if n == 0 {
            None
        } else {
            Some(s.skip(n as int))
        }
    }
}

/// One unit of filler: a comment, or else one or more spaces including line
/// breaks.
pub open spec fn spec_space_or_comment(s: Seq<char>) -> Option<Seq<char>> {
    match spec_comment(s) {
        Some(r) => Some(r),
        None => {
            let n = pfx_len(s, multispace_pred());
            if n == 0 {
                None
            } else {
                Some(s.skip(n as int))
            }
        },
    }
}

/// A successful filler unit consumes at least one character.
pub proof fn lemma_space_or_comment_shrinks(s: Seq<char>)
    ensures
        spec_space_or_comment(s) matches Some(r) ==> r.len() < s.len(),
{
    if s.len() > 0 && s[0] == '#' {
        lemma_pfx_chars(s.skip(1), comment_pred());
    }
    lemma_pfx_chars(s, multispace_pred());
}

/// Filler: zero or more filler units, greedily consumed.  Always succeeds;
/// the result is the input left over.
pub open spec fn spec_filler(s: Seq<char>) -> Seq<char>
    decreases s.len(),
{
    match spec_space_or_comment(s) {
        None => s,
        Some(r) => {
            proof {
                lemma_space_or_comment_shrinks(s);
            }
            spec_filler(r)
        },
    }
}

/// Filler consumes a prefix: the leftover is never longer than the input.
pub proof fn lemma_filler_le(s: Seq<char>)
    ensures
        spec_filler(s).len() <= s.len(),
    decreases s.len(),
{
    if let Some(r) = spec_space_or_comment(s) {
        lemma_space_or_comment_shrinks(s);
        lemma_filler_le(r);
    }
}

/// No filler unit starts where filler already stopped.
pub proof fn lemma_filler_maximal(s: Seq<char>)
    ensures
        spec_space_or_comment(spec_filler(s)) is None,
    decreases s.len(),
{
    if let Some(r) = spec_space_or_comment(s) {
        lemma_space_or_comment_shrinks(s);
        lemma_filler_maximal(r);
    }
}

/// Filler is idempotent: running it where it already ran consumes nothing.
pub proof fn lemma_filler_idempotent(s: Seq<char>)
    ensures
        spec_filler(spec_filler(s)) == spec_filler(s),
{
    lemma_filler_maximal(s);
}

/// The first four characters spell `host`, in any mix of case.
pub open spec fn spec_host_keyword(s: Seq<char>) -> bool {
    &&& s.len() >= 4
    &&& (s[0] == 'h' || s[0] == 'H')
    &&& (s[1] == 'o' || s[1] == 'O')
    &&& (s[2] == 's' || s[2] == 'S')
    &&& (s[3] == 't' || s[3] == 'T')
}

/// A host declaration: the keyword `host` in any case, a separator, and the
/// host name token.
pub open spec fn spec_host_line(s: Seq<char>) -> Option<(Seq<char>, Seq<char>)> {
    if !spec_host_keyword(s) {
        None
    } else {
        match spec_space_or_equals(s.skip(4)) {
            None => None,
            Some(r2) => match spec_string(r2) {
                None => None,
                Some((r3, name)) => Some((r3, name)),
            },
        }
    }
}

/// The raw value of a property: one or more characters up to the end of the
/// line or a trailing comment, untrimmed.
pub open spec fn spec_value(s: Seq<char>) -> Option<(Seq<char>, Seq<char>)> {
    let n = pfx_len(s, value_pred());
    if n == 0 {
        None
    } else {
        Some((s.skip(n as int), s.take(n as int)))
    }
}

/// A property line: a key token, a separator and a raw value, the value then
/// trimmed of surrounding white space.  Refuses any input that a host
/// declaration would also match, so a `Host` line is never read as a
/// directive.
pub open spec fn spec_property_line(s: Seq<char>) -> Option<(Seq<char>, SpecProperty)> {
    if spec_host_line(s) is Some {
        None
    } else {
        match spec_string(s) {
            None => None,
            Some((r1, key)) => match spec_space_or_equals(r1) {
                None => None,
                Some(r2) => match spec_value(r2) {
                    None => None,
                    Some((r3, raw)) => Some(
                        (r3, SpecProperty { key, value: spec_trim(raw) }),
                    ),
                },
            },
        }
    }
}

/// A successful token consumes at least one character.
pub proof fn lemma_string_shrinks(s: Seq<char>)
    ensures
        spec_string(s) matches Some(p) ==> p.0.len() < s.len(),
{
    lemma_pfx_chars(s, token_pred());
}

/// A successful separator consumes at least one character.
pub proof fn lemma_space_or_equals_shrinks(s: Seq<char>)
    ensures
        spec_space_or_equals(s) matches Some(r) ==> r.len() < s.len(),
{
    lemma_pfx_chars(s, space_pred());
}

/// A successful raw value consumes at least one character.
pub proof fn lemma_value_shrinks(s: Seq<char>)
    ensures
        spec_value(s) matches Some(p) ==> p.0.len() < s.len(),
{
    lemma_pfx_chars(s, value_pred());
}

/// A successful host declaration consumes at least one character.
pub proof fn lemma_host_line_shrinks(s: Seq<char>)
    ensures
        spec_host_line(s) matches Some(p) ==> p.0.len() < s.len(),
{
    if spec_host_keyword(s) {
        lemma_space_or_equals_shrinks(s.skip(4));
        if let Some(r2) = spec_space_or_equals(s.skip(4)) {
            lemma_string_shrinks(r2);
        }
    }
}

/// A successful property line consumes at least one character.
pub proof fn lemma_property_line_shrinks(s: Seq<char>)
    ensures
        spec_property_line(s) matches Some(p) ==> p.0.len() < s.len(),
{
    lemma_string_shrinks(s);
    if let Some((r1, _)) = spec_string(s) {
        lemma_space_or_equals_shrinks(r1);
        if let Some(r2) = spec_space_or_equals(r1) {
            lemma_value_shrinks(r2);
        }
    }
}

/// The directives of a block: zero or more of (filler, property line), the
/// filler discarded.  Stops, without consuming the filler of the failed
/// attempt, as soon as no property line follows.
pub open spec fn spec_properties(s: Seq<char>) -> (Seq<char>, Seq<SpecProperty>)
    decreases s.len(),
{
    let f = spec_filler(s);
    match spec_property_line(f) {
        None => (s, Seq::empty()),
        Some((r, p)) => {
            proof {
                lemma_filler_le(s);
                lemma_property_line_shrinks(f);
            }
            let rec = spec_properties(r);
            (rec.0, seq![p] + rec.1)
        },
    }
}

/// The directives rule consumes a prefix of its input.
pub proof fn lemma_properties_le(s: Seq<char>)
    ensures
        spec_properties(s).0.len() <= s.len(),
    decreases s.len(),
{
    let f = spec_filler(s);
    if let Some((r, _)) = spec_property_line(f) {
        lemma_filler_le(s);
        lemma_property_line_shrinks(f);
        lemma_properties_le(r);
    }
}

/// A host block: filler, then a mandatory host declaration, then the block's
/// directives.
pub open spec fn spec_host_block(s: Seq<char>) -> Option<(Seq<char>, SpecHost)> {
    let f = spec_filler(s);
    match spec_host_line(f) {
        None => None,
        Some((r1, name)) => {
            let rec = spec_properties(r1);
            Some((rec.0, SpecHost { name, properties: rec.1 }))
        },
    }
}

/// A successful host block consumes at least one character.
pub proof fn lemma_host_block_shrinks(s: Seq<char>)
    ensures
        spec_host_block(s) matches Some(p) ==> p.0.len() < s.len(),
{
    let f = spec_filler(s);
    lemma_filler_le(s);
    lemma_host_line_shrinks(f);
    if let Some((r1, _)) = spec_host_line(f) {
        lemma_properties_le(r1);
    }
}

/// The whole document: zero or more of (filler, host block, filler).  Stops,
/// consuming nothing of the failed attempt, as soon as no host block
/// follows; whatever is left over is dropped by [`spec_parse`].
pub open spec fn spec_hosts(s: Seq<char>) -> (Seq<char>, Seq<SpecHost>)
    decreases s.len(),
{
    let f1 = spec_filler(s);
    match spec_host_block(f1) {
        None => (s, Seq::empty()),
        Some((r1, h)) => {
            proof {
                lemma_filler_le(s);
                lemma_host_block_shrinks(f1);
                lemma_filler_le(r1);
            }
            let f2 = spec_filler(r1);
            let rec = spec_hosts(f2);
            (rec.0, seq![h] + rec.1)
        },
    }
}

/// What parsing a document yields: the host blocks, in source order, with
/// any unparseable prefix or leftover ignored.
pub open spec fn spec_parse(s: Seq<char>) -> Seq<SpecHost> {
    spec_hosts(s).1
}

} // verus!
