//! Character classes of the grammar, and verified scanners for maximal runs
//! of a class.

use vstd::prelude::*;

verus! {

/// The white-space characters: the set that `Host` configuration text treats
/// as ignorable around a property value and as a token boundary (the Unicode
/// `White_Space` set).
pub open spec fn is_white(c: char) -> bool {
    ||| c == ' '
    ||| c == '\t'
    ||| c == '\n'
    ||| c == '\u{b}'
    ||| c == '\u{c}'
    ||| c == '\r'
    ||| c == '\u{85}'
    ||| c == '\u{a0}'
    ||| c == '\u{1680}'
    ||| c == '\u{2000}'
    ||| c == '\u{2001}'
    ||| c == '\u{2002}'
    ||| c == '\u{2003}'
    ||| c == '\u{2004}'
    ||| c == '\u{2005}'
    ||| c == '\u{2006}'
    ||| c == '\u{2007}'
    ||| c == '\u{2008}'
    ||| c == '\u{2009}'
    ||| c == '\u{200a}'
    ||| c == '\u{2028}'
    ||| c == '\u{2029}'
    ||| c == '\u{202f}'
    ||| c == '\u{205f}'
    ||| c == '\u{3000}'
}

/// A token character: anything but white space, `=` and `#`.
pub open spec fn is_token_char(c: char) -> bool {
    !is_white(c) && c != '=' && c != '#'
}

/// A horizontal-space character, as the key/value separator accepts.
pub open spec fn is_space_char(c: char) -> bool {
    c == ' ' || c == '\t'
}

/// A space character including line breaks, as filler between lines accepts.
pub open spec fn is_multispace_char(c: char) -> bool {
    c == ' ' || c == '\t' || c == '\r' || c == '\n'
}

/// A character that may stand in a comment body: anything but a line break.
pub open spec fn is_comment_char(c: char) -> bool {
    c != '\r' && c != '\n'
}

/// A character that may stand in a raw property value: anything up to the
/// end of the line or the start of a trailing comment.
pub open spec fn is_value_char(c: char) -> bool {
    c != '\r' && c != '\n' && c != '#'
}

pub open spec fn white_pred() -> spec_fn(char) -> bool {
    |c: char| is_white(c)
}

pub open spec fn token_pred() -> spec_fn(char) -> bool {
    |c: char| is_token_char(c)
}

pub open spec fn space_pred() -> spec_fn(char) -> bool {
    |c: char| is_space_char(c)
}

pub open spec fn multispace_pred() -> spec_fn(char) -> bool {
    |c: char| is_multispace_char(c)
}

pub open spec fn comment_pred() -> spec_fn(char) -> bool {
    |c: char| is_comment_char(c)
}

pub open spec fn value_pred() -> spec_fn(char) -> bool {
    |c: char| is_value_char(c)
}

/// The length of the longest prefix of `s` whose characters all satisfy `p`.
pub open spec fn pfx_len(s: Seq<char>, p: spec_fn(char) -> bool) -> nat
    decreases s.len(),
{
    if s.len() > 0 && p(s[0]) {
        (1 + pfx_len(s.skip(1), p)) as nat
    } else {
        0
    }
}

/// The length of the longest suffix of `s` whose characters all satisfy `p`.
pub open spec fn sfx_len(s: Seq<char>, p: spec_fn(char) -> bool) -> nat
    decreases s.len(),
{
    if s.len() > 0 && p(s.last()) {
        (1 + sfx_len(s.drop_last(), p)) as nat
    } else {
        0
    }
}

/// Every character before `pfx_len(s, p)` satisfies `p`, and the run is
/// maximal: it ends only at the end of `s` or at a character refusing `p`.
pub proof fn lemma_pfx_chars(s: Seq<char>, p: spec_fn(char) -> bool)
    ensures
        pfx_len(s, p) <= s.len(),
        forall|k: int| 0 <= k < pfx_len(s, p) ==> p(s[k]),
        pfx_len(s, p) == s.len() || !p(s[pfx_len(s, p) as int]),
    decreases s.len(),
{
    if s.len() > 0 && p(s[0]) {
        lemma_pfx_chars(s.skip(1), p);
        assert forall|k: int| 0 <= k < pfx_len(s, p) implies p(s[k]) by {
            if k > 0 {
                assert(s.skip(1)[k - 1] == s[k]);
            }
        }
        if pfx_len(s, p) < s.len() {
            assert(s.skip(1)[pfx_len(s, p) - 1] == s[pfx_len(s, p) as int]);
        }
    }
}

/// A position `j` bounding a run of `p`-characters that cannot be extended
/// is exactly `pfx_len(s, p)`.
pub proof fn lemma_pfx_is(s: Seq<char>, p: spec_fn(char) -> bool, j: nat)
    requires
        j <= s.len(),
        forall|k: int| 0 <= k < j ==> p(s[k]),
        j == s.len() || !p(s[j as int]),
    ensures
        pfx_len(s, p) == j,
    decreases s.len(),
{
    if j == 0 {
    } else {
        assert(p(s[0]));
        assert forall|k: int| 0 <= k < j - 1 implies p(s.skip(1)[k]) by {
            assert(s.skip(1)[k] == s[k + 1]);
        }
        if j < s.len() {
            assert(s.skip(1)[j - 1] == s[j as int]);
        }
        lemma_pfx_is(s.skip(1), p, (j - 1) as nat);
    }
}

/// Every character from `s.len() - sfx_len(s, p)` on satisfies `p`, and the
/// trailing run is maximal: it ends only at the start of `s` or at a
/// character refusing `p`.
pub proof fn lemma_sfx_chars(s: Seq<char>, p: spec_fn(char) -> bool)
    ensures
        sfx_len(s, p) <= s.len(),
        forall|k: int| s.len() - sfx_len(s, p) <= k < s.len() ==> p(s[k]),
        sfx_len(s, p) == s.len() || !p(s[s.len() - sfx_len(s, p) - 1]),
    decreases s.len(),
{
    if s.len() > 0 && p(s.last()) {
        lemma_sfx_chars(s.drop_last(), p);
        assert forall|k: int| s.len() - sfx_len(s, p) <= k < s.len() implies p(s[k]) by {
            if k < s.len() - 1 {
                assert(s.drop_last()[k] == s[k]);
            }
        }
        if sfx_len(s, p) < s.len() {
            assert(s.drop_last()[s.len() - sfx_len(s, p) - 1] == s[s.len() - sfx_len(s, p) - 1]);
        }
    }
}

/// The mirror of `lemma_pfx_is` for trailing runs: a position `m` such that
/// everything from `m` on satisfies `p` and the run cannot be extended to the
/// left pins `sfx_len(s, p)` to `s.len() - m`.
pub proof fn lemma_sfx_is(s: Seq<char>, p: spec_fn(char) -> bool, t: nat)
    requires
        t <= s.len(),
        forall|k: int| s.len() - t <= k < s.len() ==> p(s[k]),
        t == s.len() || !p(s[s.len() - t - 1]),
    ensures
        sfx_len(s, p) == t,
    decreases s.len(),
{
    if t == 0 {
    } else {
        assert(p(s.last()));
        assert forall|k: int| s.drop_last().len() - (t - 1) <= k < s.drop_last().len()
            implies p(s.drop_last()[k]) by {
            assert(s.drop_last()[k] == s[k]);
        }
        if t < s.len() {
            assert(s.drop_last()[s.len() - t - 1] == s[s.len() - t - 1]);
        }
        lemma_sfx_is(s.drop_last(), p, (t - 1) as nat);
    }
}

/// The character classes a scanner can look for.
#[derive(Clone, Copy)]
pub enum Class {
    White,
    Token,
    Space,
    Multispace,
    CommentBody,
    Value,
}

pub open spec fn class_pred(cl: Class) -> spec_fn(char) -> bool {
    match cl {
        Class::White => white_pred(),
        Class::Token => token_pred(),
        Class::Space => space_pred(),
        Class::Multispace => multispace_pred(),
        Class::CommentBody => comment_pred(),
        Class::Value => value_pred(),
    }
}

/// Decides whether `c` belongs to the white-space set.
pub fn white_char(c: char) -> (b: bool)
    ensures
        b == is_white(c),
{
    c == ' ' || c == '\t' || c == '\n' || c == '\u{b}' || c == '\u{c}' || c == '\r'
        || c == '\u{85}' || c == '\u{a0}' || c == '\u{1680}' || c == '\u{2000}'
        || c == '\u{2001}' || c == '\u{2002}' || c == '\u{2003}' || c == '\u{2004}'
        || c == '\u{2005}' || c == '\u{2006}' || c == '\u{2007}' || c == '\u{2008}'
        || c == '\u{2009}' || c == '\u{200a}' || c == '\u{2028}' || c == '\u{2029}'
        || c == '\u{202f}' || c == '\u{205f}' || c == '\u{3000}'
}

/// Decides whether `c` belongs to the class `cl`.
pub fn char_in_class(cl: Class, c: char) -> (b: bool)
    ensures
        b == class_pred(cl)(c),
{
    match cl {
        Class::White => white_char(c),
        Class::Token => !white_char(c) && c != '=' && c != '#',
        Class::Space => c == ' ' || c == '\t',
        Class::Multispace => c == ' ' || c == '\t' || c == '\r' || c == '\n',
        Class::CommentBody => c != '\r' && c != '\n',
        Class::Value => c != '\r' && c != '\n' && c != '#',
    }
}

/// The length of the run of `cl`-characters at the front of `i`.
pub fn run_len(cl: Class, i: &str) -> (n: usize)
    ensures
        n == pfx_len(i@, class_pred(cl)),
        n <= i@.len(),
{
    let len: usize = i.unicode_len();
    let mut n: usize = 0;
    loop
        invariant
            len == i@.len(),
            n <= len,
            forall|k: int| 0 <= k < n ==> class_pred(cl)(i@[k]),
        ensures
            n <= len,
            forall|k: int| 0 <= k < n ==> class_pred(cl)(i@[k]),
            n == len || !class_pred(cl)(i@[n as int]),
        decreases len - n,
    {
        if n == len {
            break;
        }
        if !char_in_class(cl, i.get_char(n)) {
            break;
        }
        n = n + 1;
    }
    proof {
        lemma_pfx_is(i@, class_pred(cl), n as nat);
    }
    n
}

/// `s` with its leading and trailing white space removed.
pub open spec fn spec_trim(s: Seq<char>) -> Seq<char> {
    let l = pfx_len(s, white_pred());
    let t = sfx_len(s, white_pred());
    if l == s.len() {
        Seq::empty()
    } else {
        s.subrange(l as int, s.len() - t)
    }
}

/// Trimming settles: a trimmed value has no white space left to remove.
pub proof fn lemma_trim_idempotent(s: Seq<char>)
    ensures
        spec_trim(spec_trim(s)) == spec_trim(s),
{
    let l = pfx_len(s, white_pred());
    let t = sfx_len(s, white_pred());
    lemma_pfx_chars(s, white_pred());
    lemma_sfx_chars(s, white_pred());
    if l == s.len() {
        assert(spec_trim(s) =~= Seq::<char>::empty());
        assert(spec_trim(spec_trim(s)) =~= Seq::<char>::empty());
    } else {
        assert(s.len() - t > l) by {
            if s.len() - t <= l {
                assert(white_pred()(s[l as int]));
            }
        }
        let u = s.subrange(l as int, s.len() - t);
        assert(u[0] == s[l as int]);
        assert(u.last() == s[s.len() - t - 1]);
        lemma_pfx_is(u, white_pred(), 0);
        lemma_sfx_is(u, white_pred(), 0);
        assert(u.subrange(0, u.len() as int) =~= u);
    }
}

/// Removes leading and trailing white space from `i`.
pub fn trim<'a>(i: &'a str) -> (r: &'a str)
    ensures
        r@ == spec_trim(i@),
{
    let len: usize = i.unicode_len();
    let l: usize = run_len(Class::White, i);
    if l == len {
        let r = i.substring_char(len, len);
        proof {
            assert(r@ =~= spec_trim(i@));
        }
        r
    } else {
        let mut m: usize = len;
        loop
            invariant
                len == i@.len(),
                m <= len,
                forall|k: int| m <= k < len ==> white_pred()(i@[k]),
            ensures
                m <= len,
                forall|k: int| m <= k < len ==> white_pred()(i@[k]),
                m == 0 || !white_pred()(i@[m - 1]),
            decreases m,
        {
            if m == 0 {
                break;
            }
            if !white_char(i.get_char(m - 1)) {
                break;
            }
            m = m - 1;
        }
        proof {
            lemma_sfx_is(i@, white_pred(), (len - m) as nat);
            lemma_pfx_chars(i@, white_pred());
            assert(!white_pred()(i@[l as int]));
            assert(m > l) by {
                if m <= l {
                    assert(white_pred()(i@[l as int]));
                }
            }
        }
        i.substring_char(l, m)
    }
}

} // verus!
