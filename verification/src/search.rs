//! Text search over history content: plain substring matching with optional
//! case folding, and regular-expression matching.

use vstd::prelude::*;

use crate::model::ClipboardItem;
use crate::text::{chars_contain, chars_of, contains_seq};

verus! {

/// What `str::to_lowercase` returns, as a function of the characters alone.
pub uninterp spec fn lower_of(s: Seq<char>) -> Seq<char>;

/// Whether `regex::Regex::new` accepts a pattern.
pub uninterp spec fn regex_pattern_ok(p: Seq<char>) -> bool;

/// Whether the pattern matches the text, for patterns that compile.
pub uninterp spec fn regex_matches(p: Seq<char>, t: Seq<char>) -> bool;

/// Relies on str::to_lowercase: the result is a function of the characters
/// alone, and an empty string stays empty.
#[verifier::external_body]
pub(crate) fn to_lower(s: &str) -> (r: String)
    ensures
        r@ == lower_of(s@),
        s@.len() == 0 ==> r@.len() == 0,
{
    s.to_lowercase()
}

/// Relies on regex::Regex::new and regex::Regex::is_match: compilation
/// succeeds or fails on the pattern alone, and a compiled pattern matches a
/// text as a function of the two strings. An invalid pattern yields `None`,
/// never a silent non-match.
#[verifier::external_body]
pub(crate) fn regex_try_match(pattern: &str, text: &str) -> (r: Option<bool>)
    ensures
        r is Some <==> regex_pattern_ok(pattern@),
        r matches Some(b) ==> b == regex_matches(pattern@, text@),
{
    match regex::Regex::new(pattern) {
        Ok(re) => Some(re.is_match(text)),
        Err(_) => None,
    }
}

/// Whether `content` satisfies the text query: a regex match, an exact
/// substring match, or a case-folded substring match.
pub open spec fn text_matches(
    content: Seq<char>,
    q: Seq<char>,
    use_regex: bool,
    case_sensitive: bool,
) -> bool {
    if use_regex {
        regex_matches(q, content)
    } else if case_sensitive {
        contains_seq(content, q)
    } else {
        contains_seq(lower_of(content), lower_of(q))
    }
}

/// The filter an item must pass in a history query: the collection
/// restriction, if any, and the text query, if any.
pub open spec fn passes(
    it: ClipboardItem,
    query: Option<Seq<char>>,
    use_regex: bool,
    case_sensitive: bool,
    coll: Option<i64>,
) -> bool {
    &&& match coll {
        Some(c) => it.collection_id == Some(c),
        None => true,
    }
    &&& match query {
        Some(q) => text_matches(it.content@, q, use_regex, case_sensitive),
        None => true,
    }
}

/// Evaluate the text query on one content string. `ql` carries the query's
/// characters, case-folded unless the search is case-sensitive.
pub(crate) fn match_content(
    content: &str,
    q: &str,
    ql: &Vec<char>,
    use_regex: bool,
    case_sensitive: bool,
) -> (r: bool)
    requires
        use_regex ==> regex_pattern_ok(q@),
        !use_regex && case_sensitive ==> ql@ == q@,
        !use_regex && !case_sensitive ==> ql@ == lower_of(q@),
    ensures
        r == text_matches(content@, q@, use_regex, case_sensitive),
{
    if use_regex {
        match regex_try_match(q, content) {
            Some(b) => b,
            None => {
                proof {
                    assert(false);
                }
                false
            },
        }
    } else if case_sensitive {
        let h = chars_of(content);
        chars_contain(&h, ql)
    } else {
        let low = to_lower(content);
        let h = chars_of(low.as_str());
        chars_contain(&h, ql)
    }
}

} // verus!
