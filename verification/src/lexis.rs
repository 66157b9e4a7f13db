//! The lexical layer of the grammar: classes of characters and the runs they form.

use vstd::prelude::*;
use crate::text::{str_eq, substring};

verus! {

/// The classes of characters that the grammar reads in runs.
#[derive(Clone, Copy, Debug, PartialEq, Eq, Structural)]
pub enum CharClass {
    /// Blanks, tabs and line ends.
    Space,
    /// Letters, digits and the underscore.
    Word,
    /// Everything up to the end of the line.
    Line,
    /// Everything up to the next double quote.
    Quoted,
    /// Everything up to the next double quote or the end of the line.
    QuotedLine,
}

/// Whether a name may start with `c`.
pub open spec fn is_name_start(c: char) -> bool {
    ('a' <= c && c <= 'z') || ('A' <= c && c <= 'Z') || c == '_'
}

/// Whether `c` belongs to `class`.
pub open spec fn in_class(class: CharClass, c: char) -> bool {
    match class {
        CharClass::Space => c == ' ' || c == '\t' || c == '\r' || c == '\n',
        CharClass::Word => is_name_start(c) || ('0' <= c && c <= '9'),
        CharClass::Line => c != '\n' && c != '\r',
        CharClass::Quoted => c != '"',
        CharClass::QuotedLine => c != '"' && c != '\n' && c != '\r',
    }
}

/// How many characters of `s` stand at `pos` and behind it.
pub open spec fn left(s: Seq<char>, pos: int) -> nat {
    if pos < s.len() {
        (s.len() - pos) as nat
    } else {
        0
    }
}

/// How many characters of `class` stand in `s` from `pos` on, without a gap.
pub open spec fn run_len(s: Seq<char>, pos: int, class: CharClass) -> nat
    decreases s.len() - pos,
{
    if 0 <= pos < s.len() && in_class(class, s[pos]) {
        1 + run_len(s, pos + 1, class)
    } else {
        0
    }
}

/// Where the run of `class` that starts at `pos` ends.
pub open spec fn run_end(s: Seq<char>, pos: int, class: CharClass) -> int {
    pos + run_len(s, pos, class)
}

/// The first position from `pos` on that holds no white space.
pub open spec fn skip(s: Seq<char>, pos: int) -> int {
    run_end(s, pos, CharClass::Space)
}

/// Whether `s` holds `c` at `pos`.
pub open spec fn at(s: Seq<char>, pos: int, c: char) -> bool {
    0 <= pos < s.len() && s[pos] == c
}

/// The word that starts at `pos`; empty where none does.
pub open spec fn word(s: Seq<char>, pos: int) -> Seq<char> {
    s.subrange(pos, run_end(s, pos, CharClass::Word))
}

/// Whether a documentation comment starts at `pos`.
pub open spec fn doc_at(s: Seq<char>, pos: int) -> bool {
    at(s, pos, '/') && at(s, pos + 1, '/') && at(s, pos + 2, '/')
}

/// Whether a name may start with `c`.
pub fn name_start(c: char) -> (res: bool)
    ensures
        res == is_name_start(c),
{
    ('a' <= c && c <= 'z') || ('A' <= c && c <= 'Z') || c == '_'
}

/// Whether `c` belongs to `class`.
pub fn belongs(class: CharClass, c: char) -> (res: bool)
    ensures
        res == in_class(class, c),
{
    match class {
        CharClass::Space => c == ' ' || c == '\t' || c == '\r' || c == '\n',
        CharClass::Word => name_start(c) || ('0' <= c && c <= '9'),
        CharClass::Line => c != '\n' && c != '\r',
        CharClass::Quoted => c != '"',
        CharClass::QuotedLine => c != '"' && c != '\n' && c != '\r',
    }
}

/// The end of the run of `class` that starts at `pos`.
pub fn scan(chars: &Vec<char>, pos: usize, class: CharClass) -> (end: usize)
    requires
        pos <= chars.len(),
    ensures
        end == run_end(chars@, pos as int, class),
        pos <= end <= chars.len(),
{
    let mut i: usize = pos;
    while i < chars.len() && belongs(class, chars[i])
        invariant
            pos <= i <= chars.len(),
            run_end(chars@, i as int, class) == run_end(chars@, pos as int, class),
        decreases chars.len() - i,
    {
        i += 1;
    }
    i
}

/// The first position from `pos` on that holds no white space.
pub fn skip_space(chars: &Vec<char>, pos: usize) -> (end: usize)
    requires
        pos <= chars.len(),
    ensures
        end == skip(chars@, pos as int),
        pos <= end <= chars.len(),
{
    scan(chars, pos, CharClass::Space)
}

/// Whether `chars` holds `c` at `pos`.
pub fn peek(chars: &Vec<char>, pos: usize, c: char) -> (res: bool)
    ensures
        res == at(chars@, pos as int, c),
{
    pos < chars.len() && chars[pos] == c
}

/// Whether a documentation comment starts at `pos`.
pub fn peek_doc(chars: &Vec<char>, pos: usize) -> (res: bool)
    ensures
        res == doc_at(chars@, pos as int),
{
    pos < chars.len() && chars.len() - pos >= 3 && chars[pos] == '/' && chars[pos + 1] == '/'
        && chars[pos + 2] == '/'
}

/// The word that starts at `pos`, and where it ends.
pub fn read_word(chars: &Vec<char>, pos: usize) -> (res: (String, usize))
    requires
        pos <= chars.len(),
    ensures
        res.0@ == word(chars@, pos as int),
        res.1 == run_end(chars@, pos as int, CharClass::Word),
        pos <= res.1 <= chars.len(),
{
    let end = scan(chars, pos, CharClass::Word);
    (substring(chars, pos, end), end)
}

/// Whether `text` reads `literal`.
pub fn reads(text: &String, literal: &str) -> (res: bool)
    ensures
        res == (text@ == literal@),
{
    str_eq(text.as_str(), literal)
}

} // verus!
