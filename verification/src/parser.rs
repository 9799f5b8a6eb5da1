//! The parsing functions, verified against the grammar in [`crate::model`].
//!
//! Each function takes the remaining input as a `&str` and, on success,
//! returns the input left over together with the value it extracted, exactly
//! as the corresponding spec rule says.

use vstd::prelude::*;

use crate::chars::{trim, run_len, Class};
use crate::model::{
    spec_comment, spec_filler, spec_host_block, spec_host_line, spec_hosts, spec_parse,
    spec_properties, spec_property_line, spec_space_or_comment, spec_space_or_equals,
    spec_string, spec_value, SpecHost, SpecProperty, lemma_filler_le, lemma_host_block_shrinks,
    lemma_property_line_shrinks, lemma_space_or_comment_shrinks,
};

verus! {

/// One key/value directive of a host block.  The value is trimmed of
/// surrounding white space and of a trailing comment.
#[derive(PartialEq, Eq, Debug)]
pub struct Property {
    pub key: String,
    pub value: String,
}

impl View for Property {
    type V = SpecProperty;

    open spec fn view(&self) -> SpecProperty {
        SpecProperty { key: self.key@, value: self.value@ }
    }
}

/// The sequence of directive views, in order.
pub open spec fn props_view(s: Seq<Property>) -> Seq<SpecProperty> {
    s.map_values(|p: Property| p@)
}

/// One host block: the host name and its directives in source order.
#[derive(PartialEq, Eq, Debug)]
pub struct Host {
    pub name: String,
    pub properties: Vec<Property>,
}

impl View for Host {
    type V = SpecHost;

    open spec fn view(&self) -> SpecHost {
        SpecHost { name: self.name@, properties: props_view(self.properties@) }
    }
}

/// The sequence of host views, in order.
pub open spec fn hosts_view(s: Seq<Host>) -> Seq<SpecHost> {
    s.map_values(|h: Host| h@)
}

/// A token: one or more characters that are neither white space nor `=` nor
/// `#`.  Returns the leftover input and the token.
pub fn string<'a>(i: &'a str) -> (r: Option<(&'a str, &'a str)>)
    ensures
        r is Some <==> spec_string(i@) is Some,
        r matches Some(p) ==> spec_string(i@) == Some((p.0@, p.1@)),
{
    let n = run_len(Class::Token, i);
    if n == 0 {
        None
    } else {
        Some((i.substring_char(n, i.unicode_len()), i.substring_char(0, n)))
    }
}

/// A comment: `#` and the rest of the line.  The comment carries no data, so
/// the extracted value is empty.
pub fn comment<'a>(i: &'a str) -> (r: Option<(&'a str, ())>)
    ensures
        r is Some <==> spec_comment(i@) is Some,
        r matches Some(p) ==> spec_comment(i@) == Some(p.0@),
{
    let len = i.unicode_len();
    if len == 0 {
        return None;
    }
    if i.get_char(0) != '#' {
        return None;
    }
    let t = i.substring_char(1, len);
    let tlen = t.unicode_len();
    let n = run_len(Class::CommentBody, t);
    if n < tlen && t.get_char(n) == '\r' && !(n + 1 < tlen && t.get_char(n + 1) == '\n') {
        return None;
    }
    Some((t.substring_char(n, tlen), ()))
}

/// The key/value separator: a single `=`, or else one or more horizontal
/// spaces.
pub fn space_or_equals<'a>(i: &'a str) -> (r: Option<(&'a str, ())>)
    ensures
        r is Some <==> spec_space_or_equals(i@) is Some,
        r matches Some(p) ==> spec_space_or_equals(i@) == Some(p.0@),
{
    let len = i.unicode_len();
    if len > 0 && i.get_char(0) == '=' {
        return Some((i.substring_char(1, len), ()));
    }
    let n = run_len(Class::Space, i);
    if n == 0 {
        None
    } else {
        Some((i.substring_char(n, len), ()))
    }
}

/// One unit of filler: a comment, or else one or more spaces including line
/// breaks.
pub fn space_or_comment<'a>(i: &'a str) -> (r: Option<(&'a str, ())>)
    ensures
        r is Some <==> spec_space_or_comment(i@) is Some,
        r matches Some(p) ==> spec_space_or_comment(i@) == Some(p.0@),
{
    match comment(i) {
        Some(p) => Some(p),
        None => {
            let n = run_len(Class::Multispace, i);
            if n == 0 {
                None
            } else {
                Some((i.substring_char(n, i.unicode_len()), ()))
            }
        },
    }
}

/// Filler: zero or more filler units, greedily consumed.  Returns the input
/// left over.
pub(crate) fn filler<'a>(i: &'a str) -> (r: &'a str)
    ensures
        r@ == spec_filler(i@),
{
    let mut rem: &'a str = i;
    loop
        invariant
            spec_filler(i@) == spec_filler(rem@),
        ensures
            spec_filler(i@) == rem@,
        decreases rem@.len(),
    {
        match space_or_comment(rem) {
            Some(p) => {
                proof {
                    lemma_space_or_comment_shrinks(rem@);
                }
                rem = p.0;
            },
            None => {
                break;
            },
        }
    }
    rem
}

/// Filler, in the shape the grammar rules share: it always succeeds.
pub fn spaces_or_comments<'a>(i: &'a str) -> (r: Option<(&'a str, ())>)
    ensures
        r matches Some(p) && p.0@ == spec_filler(i@),
{
    Some((filler(i), ()))
}

/// The raw value of a property: one or more characters up to the end of the
/// line or a trailing comment, untrimmed.
pub fn not_comment<'a>(i: &'a str) -> (r: Option<(&'a str, &'a str)>)
    ensures
        r is Some <==> spec_value(i@) is Some,
        r matches Some(p) ==> spec_value(i@) == Some((p.0@, p.1@)),
{
    let n = run_len(Class::Value, i);
    if n == 0 {
        None
    } else {
        Some((i.substring_char(n, i.unicode_len()), i.substring_char(0, n)))
    }
}

/// A host declaration: the keyword `host` in any case, a separator and the
/// host name.  Returns the leftover input and the name.
pub fn host_line<'a>(i: &'a str) -> (r: Option<(&'a str, &'a str)>)
    ensures
        r is Some <==> spec_host_line(i@) is Some,
        r matches Some(p) ==> spec_host_line(i@) == Some((p.0@, p.1@)),
{
    let len = i.unicode_len();
    if len < 4 {
        return None;
    }
    let c0 = i.get_char(0);
    if !(c0 == 'h' || c0 == 'H') {
        return None;
    }
    let c1 = i.get_char(1);
    if !(c1 == 'o' || c1 == 'O') {
        return None;
    }
    let c2 = i.get_char(2);
    if !(c2 == 's' || c2 == 'S') {
        return None;
    }
    let c3 = i.get_char(3);
    if !(c3 == 't' || c3 == 'T') {
        return None;
    }
    match space_or_equals(i.substring_char(4, len)) {
        None => None,
        Some((r2, _)) => match string(r2) {
            None => None,
            Some((r3, name)) => Some((r3, name)),
        },
    }
}

/// A property line: a key, a separator and a value, the value trimmed.
/// Refuses any input that a host declaration would also match.
pub fn property_line<'a>(i: &'a str) -> (r: Option<(&'a str, Property)>)
    ensures
        r is Some <==> spec_property_line(i@) is Some,
        r matches Some(p) ==> spec_property_line(i@) == Some((p.0@, p.1@)),
{
    if host_line(i).is_some() {
        return None;
    }
    match string(i) {
        None => None,
        Some((r1, key)) => match space_or_equals(r1) {
            None => None,
            Some((r2, _)) => match not_comment(r2) {
                None => None,
                Some((r3, raw)) => {
                    let value = trim(raw);
                    Some((r3, Property { key: key.to_owned(), value: value.to_owned() }))
                },
            },
        },
    }
}

/// The directives of a block, collected in source order, with the input left
/// over after the last of them.
pub(crate) fn properties_vec<'a>(i: &'a str) -> (r: (&'a str, Vec<Property>))
    ensures
        r.0@ == spec_properties(i@).0,
        props_view(r.1@) == spec_properties(i@).1,
{
    let mut rem: &'a str = i;
    let mut out: Vec<Property> = Vec::new();
    proof {
        assert(props_view(out@) =~= Seq::<SpecProperty>::empty());
    }
    loop
        invariant
            spec_properties(i@).0 == spec_properties(rem@).0,
            spec_properties(i@).1 == props_view(out@) + spec_properties(rem@).1,
        ensures
            rem@ == spec_properties(i@).0,
            props_view(out@) == spec_properties(i@).1,
        decreases rem@.len(),
    {
        let f = filler(rem);
        match property_line(f) {
            None => {
                proof {
                    assert(spec_properties(rem@).0 == rem@);
                    assert(props_view(out@) + spec_properties(rem@).1 =~= props_view(out@));
                }
                break;
            },
            Some((r2, p)) => {
                proof {
                    lemma_filler_le(rem@);
                    lemma_property_line_shrinks(f@);
                    let old_view = props_view(out@);
                    assert(props_view(out@.push(p)) =~= old_view.push(p@));
                    assert(old_view + (seq![p@] + spec_properties(r2@).1) =~= old_view.push(
                        p@,
                    ) + spec_properties(r2@).1);
                }
                out.push(p);
                rem = r2;
            },
        }
    }
    (rem, out)
}

/// The directives rule, in the shape the grammar rules share: it always
/// succeeds, possibly with an empty collection.
pub fn properties<'a>(i: &'a str) -> (r: Option<(&'a str, Vec<Property>)>)
    ensures
        r matches Some(p) && p.0@ == spec_properties(i@).0 && props_view(p.1@)
            == spec_properties(i@).1,
{
    let (rem, out) = properties_vec(i);
    Some((rem, out))
}

/// A host block: filler, a mandatory host declaration, then the block's
/// directives.
pub fn host_block<'a>(i: &'a str) -> (r: Option<(&'a str, Host)>)
    ensures
        r is Some <==> spec_host_block(i@) is Some,
        r matches Some(p) ==> spec_host_block(i@) == Some((p.0@, p.1@)),
{
    let f = filler(i);
    match host_line(f) {
        None => None,
        Some((r1, name)) => {
            let (r2, props) = properties_vec(r1);
            Some((r2, Host { name: name.to_owned(), properties: props }))
        },
    }
}

/// The whole document: host blocks separated by filler, collected in source
/// order, with the input left over after the last block.
pub(crate) fn hosts_vec<'a>(i: &'a str) -> (r: (&'a str, Vec<Host>))
    ensures
        r.0@ == spec_hosts(i@).0,
        hosts_view(r.1@) == spec_hosts(i@).1,
{
    let mut rem: &'a str = i;
    let mut out: Vec<Host> = Vec::new();
    proof {
        assert(hosts_view(out@) =~= Seq::<SpecHost>::empty());
    }
    loop
        invariant
            spec_hosts(i@).0 == spec_hosts(rem@).0,
            spec_hosts(i@).1 == hosts_view(out@) + spec_hosts(rem@).1,
        ensures
            rem@ == spec_hosts(i@).0,
            hosts_view(out@) == spec_hosts(i@).1,
        decreases rem@.len(),
    {
        let f1 = filler(rem);
        match host_block(f1) {
            None => {
                proof {
                    assert(spec_hosts(rem@).0 == rem@);
                    assert(hosts_view(out@) + spec_hosts(rem@).1 =~= hosts_view(out@));
                }
                break;
            },
            Some((r1, h)) => {
                proof {
                    lemma_filler_le(rem@);
                    lemma_host_block_shrinks(f1@);
                    lemma_filler_le(r1@);
                    let old_view = hosts_view(out@);
                    assert(hosts_view(out@.push(h)) =~= old_view.push(h@));
                    assert(old_view + (seq![h@] + spec_hosts(spec_filler(r1@)).1)
                        =~= old_view.push(h@) + spec_hosts(spec_filler(r1@)).1);
                }
                out.push(h);
                rem = filler(r1);
            },
        }
    }
    (rem, out)
}

/// The document rule, in the shape the grammar rules share: it always
/// succeeds, possibly with an empty collection.
pub fn hosts<'a>(i: &'a str) -> (r: Option<(&'a str, Vec<Host>)>)
    ensures
        r matches Some(p) && p.0@ == spec_hosts(i@).0 && hosts_view(p.1@) == spec_hosts(i@).1,
{
    let (rem, out) = hosts_vec(i);
    Some((rem, out))
}

/// Parses a whole configuration document into its host blocks, in source
/// order.  Parsing is permissive: filler and unparseable text around the
/// blocks is dropped, and the result is always `Ok`.
pub fn parse(data: &str) -> (r: Result<Vec<Host>, ()>)
    ensures
        r matches Ok(v) && hosts_view(v@) == spec_parse(data@),
{
    let (_, out) = hosts_vec(data);
    Ok(out)
}

} // verus!
