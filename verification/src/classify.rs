//! Classification of text content into a finer data type at insert time.
//!
//! The rules, in order of precedence: a `http://` or `https://` prefix makes
//! a URL; a fenced ``` prefix makes a code block; a `#` followed by exactly
//! three or six hexadecimal digits makes a color; everything else is plain
//! text.

use vstd::prelude::*;

use crate::model::DataType;
use crate::text::{chars_of, has_prefix, starts_with};

verus! {

/// Whether `c` is a hexadecimal digit.
pub open spec fn is_hex_digit(c: char) -> bool {
    ('0' <= c && c <= '9') || ('a' <= c && c <= 'f') || ('A' <= c && c <= 'F')
}

/// Whether `s` is a hex color literal: `#` and exactly 3 or 6 hex digits.
pub open spec fn is_hex_color(s: Seq<char>) -> bool {
    (s.len() == 4 || s.len() == 7) && s[0] == '#' && (forall|i: int|
        1 <= i < s.len() ==> is_hex_digit(#[trigger] s[i]))
}

/// The data type assigned to text content.
pub open spec fn spec_classify(s: Seq<char>) -> DataType {
    if has_prefix(s, "http://"@) || has_prefix(s, "https://"@) {
        DataType::Url
    } else if has_prefix(s, "```"@) {
        DataType::Code
    } else if is_hex_color(s) {
        DataType::Color
    } else {
        DataType::PlainText
    }
}

fn hex_digit(c: char) -> (r: bool)
    ensures
        r == is_hex_digit(c),
{
    ('0' <= c && c <= '9') || ('a' <= c && c <= 'f') || ('A' <= c && c <= 'F')
}

fn hex_color(s: &Vec<char>) -> (r: bool)
    ensures
        r == is_hex_color(s@),
{
    if !(s.len() == 4 || s.len() == 7) {
        return false;
    }
    if s[0] != '#' {
        return false;
    }
    let mut i: usize = 1;
    while i < s.len()
        invariant
            s@.len() == 4 || s@.len() == 7,
            1 <= i <= s@.len(),
            forall|k: int| 1 <= k < i ==> is_hex_digit(#[trigger] s@[k]),
        decreases s@.len() - i,
    {
        if !hex_digit(s[i]) {
            return false;
        }
        i = i + 1;
    }
    true
}

/// Classify text content by pattern inspection.
pub fn classify_content(content: &str) -> (r: DataType)
    ensures
        r == spec_classify(content@),
{
    let cs = chars_of(content);
    let http = chars_of("http://");
    let https = chars_of("https://");
    let fence = chars_of("```");
    if starts_with(&cs, &http) || starts_with(&cs, &https) {
        DataType::Url
    } else if starts_with(&cs, &fence) {
        DataType::Code
    } else if hex_color(&cs) {
        DataType::Color
    } else {
        DataType::PlainText
    }
}

} // verus!
