//! Properties of the grammar that hold of every input, stated over the spec
//! functions of [`crate::model`] and proved here.

use vstd::prelude::*;

use crate::chars::{lemma_trim_idempotent, spec_trim};
use crate::model::{
    lemma_filler_idempotent, spec_filler, spec_host_block, spec_host_keyword, spec_host_line,
    spec_hosts, spec_parse, spec_property_line, spec_space_or_equals, spec_string, spec_value,
    SpecHost,
};

verus! {

/// A document made of filler alone — spaces, tabs, line breaks and comments,
/// with nothing the filler rule leaves over — parses to an empty host list:
/// filler never produces an entry.
pub proof fn lemma_filler_only_parses_empty(s: Seq<char>)
    requires
        spec_filler(s).len() == 0,
    ensures
        spec_parse(s) == Seq::<SpecHost>::empty(),
{
    let f1 = spec_filler(s);
    assert(spec_filler(f1) == f1);
    assert(spec_host_line(spec_filler(f1)) is None);
    assert(spec_host_block(f1) is None);
    assert(spec_hosts(s).1 == Seq::<SpecHost>::empty());
}

/// Filler in front of a document changes nothing: parsing after skipping the
/// leading filler yields the very hosts parsing the whole document yields,
/// so leading filler never produces an entry of its own.
pub proof fn lemma_leading_filler_ignored(s: Seq<char>)
    ensures
        spec_parse(s) == spec_parse(spec_filler(s)),
{
    let f1 = spec_filler(s);
    lemma_filler_idempotent(s);
    assert(spec_filler(f1) == f1);
    match spec_host_block(f1) {
        None => {
            assert(spec_hosts(s).1 == Seq::<SpecHost>::empty());
            assert(spec_hosts(f1).1 == Seq::<SpecHost>::empty());
        },
        Some((r1, h)) => {
            assert(spec_hosts(s).1 == seq![h] + spec_hosts(spec_filler(r1)).1);
            assert(spec_hosts(f1).1 == seq![h] + spec_hosts(spec_filler(r1)).1);
        },
    }
}

/// The disambiguation rule: wherever a host declaration would parse, the
/// property-line rule refuses, so a `Host` line is never swallowed as a
/// directive of the block before it.
pub proof fn lemma_property_line_rejects_host_line(s: Seq<char>)
    requires
        spec_host_line(s) is Some,
    ensures
        spec_property_line(s) is None,
{
}

/// A document in which no host block can be parsed — stray directives with
/// no `Host` line before them, for instance — parses to an empty host list
/// rather than failing.
pub proof fn lemma_no_host_block_parses_empty(s: Seq<char>)
    requires
        spec_host_block(s) is None,
    ensures
        spec_parse(s) == Seq::<SpecHost>::empty(),
{
    let f1 = spec_filler(s);
    lemma_filler_idempotent(s);
    assert(spec_filler(f1) == f1);
    assert(spec_host_line(f1) is None);
    assert(spec_host_block(f1) is None);
    assert(spec_hosts(s).1 == Seq::<SpecHost>::empty());
}

/// Parsing is a pure function of the text: the contract of
/// [`crate::parser::parse`] pins the view of every result to
/// [`spec_parse`] of the input, so any two results it allows for the same
/// input — two calls on the same document, in particular — are equal.
pub proof fn lemma_parse_deterministic(s: Seq<char>, r1: Seq<SpecHost>, r2: Seq<SpecHost>)
    requires
        r1 == spec_parse(s),
        r2 == spec_parse(s),
    ensures
        r1 == r2,
{
}

/// Values are trimmed: the value of any parsed property carries no leading
/// or trailing white space, whatever separator or padding the source used.
pub proof fn lemma_property_value_trimmed(s: Seq<char>)
    ensures
        spec_property_line(s) matches Some(p) ==> p.1.value == spec_trim(p.1.value),
{
    if spec_property_line(s) is Some {
        if let Some((r1, _)) = spec_string(s) {
            if let Some(r2) = spec_space_or_equals(r1) {
                if let Some((_, raw)) = spec_value(r2) {
                    lemma_trim_idempotent(raw);
                }
            }
        }
    }
}

/// The keyword's case never matters: two inputs that both open with some
/// casing of `host` and agree from there on parse to the same host
/// declaration — the same name and the same leftover input.
pub proof fn lemma_host_keyword_case_ignored(s1: Seq<char>, s2: Seq<char>)
    requires
        spec_host_keyword(s1),
        spec_host_keyword(s2),
        s1.skip(4) == s2.skip(4),
    ensures
        spec_host_line(s1) == spec_host_line(s2),
{
}

} // verus!
