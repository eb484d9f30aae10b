//! Name patterns: wildcards, negation, and the anchored expression that
//! decides which host names a pattern covers.

use crate::text::{chars_of, string_of};
use regex::Regex;
use vstd::prelude::*;

verus! {

/// A pattern is a wildcard pattern when it holds `*`, `?` or `!` anywhere.
pub open spec fn is_wildcard(pattern: Seq<char>) -> bool {
    pattern.contains('*') || pattern.contains('?') || pattern.contains('!')
}

/// A pattern is negated when it begins with `!`.
pub open spec fn is_negated(pattern: Seq<char>) -> bool {
    pattern.len() > 0 && pattern[0] == '!'
}

/// What one character of a pattern becomes in the expression: a dot is
/// escaped, `*` stands for any run of characters, `?` for exactly one, and
/// every other character for itself.
pub open spec fn expanded_char(c: char) -> Seq<char> {
    if c == '.' {
        seq!['\\', '.']
    } else if c == '*' {
        seq!['.', '*']
    } else if c == '?' {
        seq!['.']
    } else {
        seq![c]
    }
}

/// What the characters of `pattern` become, one after the other.
pub open spec fn expanded(pattern: Seq<char>) -> Seq<char>
    decreases pattern.len(),
{
    if pattern.len() == 0 {
        Seq::empty()
    } else {
        expanded(pattern.drop_last()) + expanded_char(pattern.last())
    }
}

/// The anchored expression of a pattern: `^`, what the pattern becomes
/// without its leading `!` if it has one, and `$`.
pub open spec fn expression(pattern: Seq<char>) -> Seq<char> {
    let body = if is_negated(pattern) {
        pattern.skip(1)
    } else {
        pattern
    };
    seq!['^'] + expanded(body) + seq!['$']
}

/// Whether the regular-expression engine accepts `expression` as an
/// expression it can compile.
pub uninterp spec fn regex_compiles(expression: Seq<char>) -> bool;

/// Whether the compiled `expression` has a match somewhere in `text`.
pub uninterp spec fn regex_finds(expression: Seq<char>, text: Seq<char>) -> bool;

/// What a search for `expression` in `text` reports: nothing when the
/// expression does not compile, else whether there is a match.
pub open spec fn search(expression: Seq<char>, text: Seq<char>) -> Option<bool> {
    if regex_compiles(expression) {
        Some(regex_finds(expression, text))
    } else {
        None
    }
}

/// Whether a pattern with the given expression and negation covers a name,
/// given what the search for the expression in the name reported. A negated
/// pattern covers the names in which its expression has no match. A pattern
/// whose expression does not compile covers nothing.
pub open spec fn covered_when(found: Option<bool>, negated: bool) -> bool {
    match found {
        Some(matched) => matched != negated,
        None => false,
    }
}

/// Whether `pattern` covers `name`.
pub open spec fn covers(pattern: Seq<char>, name: Seq<char>) -> bool {
    covered_when(search(expression(pattern), name), is_negated(pattern))
}

/// Tells whether `pattern` is a wildcard pattern.
pub fn has_wildcard(pattern: &str) -> (b: bool)
    ensures
        b == is_wildcard(pattern@),
{
    let chars = chars_of(pattern);
    let mut found = false;
    let mut i: usize = 0;
    while i < chars.len()
        invariant
            i <= chars.len(),
            chars@ == pattern@,
            found == is_wildcard(chars@.take(i as int)),
        decreases chars.len() - i,
    {
        let c = chars[i];
        proof {
            let before = chars@.take(i as int);
            let after = chars@.take(i + 1);
            assert(after == before.push(c));
            assert(forall|x: char| after.contains(x) <==> (before.contains(x) || x == c)) by {
                assert forall|x: char| after.contains(x) implies (before.contains(x) || x == c) by {
                    let k = choose|k: int| 0 <= k < after.len() && after[k] == x;
                    if k < i {
                        assert(before[k] == x);
                    }
                }
                assert forall|x: char| (before.contains(x) || x == c) implies after.contains(
                    x,
                ) by {
                    if x == c {
                        assert(after[i as int] == x);
                    } else {
                        let k = choose|k: int| 0 <= k < before.len() && before[k] == x;
                        assert(after[k] == x);
                    }
                }
            }
        }
        if c == '*' || c == '?' || c == '!' {
            found = true;
        }
        i += 1;
    }
    proof {
        assert(chars@.take(chars.len() as int) == chars@);
    }
    found
}

/// Builds the anchored expression of `pattern` and tells whether the pattern
/// is negated.
pub fn matching_expression(pattern: &str) -> (r: (String, bool))
    ensures
        r.0@ == expression(pattern@),
        r.1 == is_negated(pattern@),
{
    let chars = chars_of(pattern);
    let negated = chars.len() > 0 && chars[0] == '!';
    let start: usize = if negated {
        1
    } else {
        0
    };
    let ghost body = chars@.skip(start as int);
    let mut out: Vec<char> = Vec::new();
    out.push('^');
    let mut i: usize = start;
    while i < chars.len()
        invariant
            start <= i <= chars.len(),
            body == chars@.skip(start as int),
            out@ == seq!['^'] + expanded(body.take(i - start)),
        decreases chars.len() - i,
    {
        let c = chars[i];
        proof {
            let next = body.take(i + 1 - start);
            assert(next.drop_last() == body.take(i - start));
            assert(next.last() == c);
        }
        if c == '.' {
            out.push('\\');
            out.push('.');
        } else if c == '*' {
            out.push('.');
            out.push('*');
        } else if c == '?' {
            out.push('.');
        } else {
            out.push(c);
        }
        i += 1;
    }
    proof {
        assert(body.take(chars.len() - start) == body);
    }
    out.push('$');
    proof {
        assert(chars@.skip(0) == chars@);
        assert(out@ == seq!['^'] + expanded(body) + seq!['$']);
    }
    (string_of(&out), negated)
}

/// `Regex::new` followed by `Regex::is_match` of the regex crate: reports
/// nothing when the engine refuses to compile `expression`, be it for its
/// syntax or for its size, and else whether the compiled expression has a
/// match in `text`. Both answers depend on the two strings alone.
#[verifier::external_body]
fn regex_search(expression: &str, text: &str) -> (found: Option<bool>)
    ensures
        found is Some <==> regex_compiles(expression@),
        found matches Some(matched) ==> matched == regex_finds(expression@, text@),
{
    match Regex::new(expression) {
        Ok(compiled) => Some(compiled.is_match(text)),
        Err(_) => None,
    }
}

/// Decides from the outcome of a search whether a pattern covers a name.
pub fn is_covered_when(found: Option<bool>, negated: bool) -> (b: bool)
    ensures
        b == covered_when(found, negated),
{
    match found {
        Some(matched) => matched != negated,
        None => false,
    }
}

/// Tells whether the pattern with the given expression and negation covers
/// `name`.
pub fn expression_covers(expression: &str, negated: bool, name: &str) -> (b: bool)
    ensures
        b == covered_when(search(expression@, name@), negated),
{
    is_covered_when(regex_search(expression, name), negated)
}

} // verus!
