//! The errors of the library.

use vstd::prelude::*;
use vstd::string::StringExecFns;
use crate::grammar::{Expected, Failure};

verus! {

/// `std::io::Error`, carried through unread: nothing is stated of what it holds.
#[verifier::external_type_specification]
#[verifier::external_body]
pub struct ExIoError(std::io::Error);

/// What can go wrong between a definition file and its declarations.
#[derive(Debug)]
pub enum ApigenError {
    /// The file could not be read.
    Disconnect(std::io::Error),
    /// The text does not follow the grammar.
    Syntax {
        /// Path of the file.
        file: String,
        /// Index of the character that does not fit.
        offset: usize,
        /// What the grammar asks for there.
        expected: String,
        /// What stands there; empty at the end of the text.
        found: String,
    },
    /// An entry of an enum cannot get a value: the value written for it is no
    /// unsigned 64-bit number, or the numbers are used up.
    MissingRequiredField {
        /// Name of the enum; empty where the error left the enum's entries only.
        enum_name: String,
        /// Name of the entry.
        entry: String,
    },
}

/// View of an [`ApigenError`].
pub enum ApigenErrorView {
    Disconnect,
    Syntax { file: Seq<char>, offset: int, expected: Seq<char>, found: Seq<char> },
    MissingRequiredField { enum_name: Seq<char>, entry: Seq<char> },
}

impl View for ApigenError {
    type V = ApigenErrorView;

    open spec fn view(&self) -> ApigenErrorView {
        match self {
            ApigenError::Disconnect(_) => ApigenErrorView::Disconnect,
            ApigenError::Syntax { file, offset, expected, found } => ApigenErrorView::Syntax {
                file: file@,
                offset: *offset as int,
                expected: expected@,
                found: found@,
            },
            ApigenError::MissingRequiredField { enum_name, entry } => {
                ApigenErrorView::MissingRequiredField { enum_name: enum_name@, entry: entry@ }
            },
        }
    }
}

impl From<std::io::Error> for ApigenError {
    fn from(error: std::io::Error) -> (res: ApigenError) {
        ApigenError::Disconnect(error)
    }
}

impl vstd::std_specs::convert::FromSpecImpl<std::io::Error> for ApigenError {
    open spec fn obeys_from_spec() -> bool {
        true
    }

    open spec fn from_spec(error: std::io::Error) -> ApigenError {
        ApigenError::Disconnect(error)
    }
}

/// The words for what the grammar asks for.
pub open spec fn spec_describe(expected: Expected) -> Seq<char> {
    match expected {
        Expected::Declaration => "a declaration"@,
        Expected::Name => "a name"@,
        Expected::Value => "a quoted text, a name or a number"@,
        Expected::Field => "a field, a function, an enum entry or `}`"@,
        Expected::ClauseName => "`attributes`, `derive` or `traits`"@,
        Expected::MarkerName => "`static` or `manual`"@,
        Expected::StructKeyword => "`struct`"@,
        Expected::Symbol(c) => seq![c],
    }
}

/// The words for what the grammar asks for.
pub fn describe(expected: Expected) -> (words: String)
    ensures
        words@ == spec_describe(expected),
{
    match expected {
        Expected::Declaration => String::from_str("a declaration"),
        Expected::Name => String::from_str("a name"),
        Expected::Value => String::from_str("a quoted text, a name or a number"),
        Expected::Field => String::from_str("a field, a function, an enum entry or `}`"),
        Expected::ClauseName => String::from_str("`attributes`, `derive` or `traits`"),
        Expected::MarkerName => String::from_str("`static` or `manual`"),
        Expected::StructKeyword => String::from_str("`struct`"),
        Expected::Symbol(c) => {
            let mut words = String::new();
            words.push(c);
            assert(words@ =~= seq![c]);
            words
        },
    }
}

/// The character of `s` at `offset` as a text; empty behind the end.
pub open spec fn found_at(s: Seq<char>, offset: int) -> Seq<char> {
    if 0 <= offset < s.len() {
        seq![s[offset]]
    } else {
        Seq::empty()
    }
}

/// The syntax error of the file `filename`, whose text is `s`, for a failure of the
/// grammar at `offset`.
pub open spec fn spec_syntax_error(filename: Seq<char>, s: Seq<char>, offset: int, expected: Expected) -> ApigenErrorView {
    ApigenErrorView::Syntax {
        file: filename,
        offset,
        expected: spec_describe(expected),
        found: found_at(s, offset),
    }
}

/// The syntax error of the file `filename`, whose text is `chars`, for `failure`.
pub fn syntax_error(filename: &str, chars: &Vec<char>, failure: Failure) -> (error: ApigenError)
    ensures
        error@ == spec_syntax_error(filename@, chars@, failure.offset as int, failure.expected),
{
    let mut found = String::new();
    if failure.offset < chars.len() {
        found.push(chars[failure.offset]);
        assert(found@ =~= seq![chars@[failure.offset as int]]);
    }
    ApigenError::Syntax {
        file: String::from_str(filename),
        offset: failure.offset,
        expected: describe(failure.expected),
        found,
    }
}

} // verus!
