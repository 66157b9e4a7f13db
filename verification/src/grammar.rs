//! The grammar of definition files.
//!
//! ```text
//! file        = { chunk }
//! chunk       = doc_comment | structdef | uniondef | enumdef | callbackdef
//!             | moddef | type_value | const_value
//! doc_comment = "///" { any character but a line end }
//! structdef   = { clause } "struct" name fieldlist
//! clause      = "#[" ( "attributes" | "derive" | "traits" ) "(" namelist ")" "]"
//! uniondef    = "union" name fieldlist
//! enumdef     = "enum" name fieldlist [ "flags" name ]
//! callbackdef = "callback" function
//! moddef      = "mod" name
//! type_value  = "type" var
//! const_value = "const" name "=" ( raw_string | name_or_num )
//! namelist    = name { "," name }
//! fieldlist   = "{" { doc_comment | field [ "," ] } "}"
//! field       = function | var | enum_entry
//! function    = { "[" ( "static" | "manual" ) "]" } name varlist [ "->" type ]
//! varlist     = "(" [ var { "," var } ] ")"
//! var         = name ":" type [ "=" ( string | name_or_num ) ]
//! type        = ( array | type_ref ) [ "?" ]
//! type_ref    = [ "&" | "*const" | "*" ] name
//! array       = "[" type_ref [ ";" name_or_num ] "]"
//! enum_entry  = name [ "=" name_or_num ]
//! name        = ( letter | "_" ) { letter | digit | "_" }
//! name_or_num = ( letter | digit | "_" ) { letter | digit | "_" }
//! string      = '"' { any character but '"' and a line end } '"'
//! raw_string  = '"' { any character but '"' } '"'
//! ```
//!
//! White space may stand between any two tokens, but not inside `#[`, `->` and
//! `*const`. The spec functions below define, for every text, the tree that the
//! grammar gives to it or the place where it fails; the parser is proved to compute
//! exactly that.

use vstd::prelude::*;
use crate::lexis::{at, doc_at, in_class, is_name_start, left, run_end, skip, word, CharClass};
use crate::tree::{Rule, Tree};

verus! {

/// What the grammar asks for at the place where a text fails.
#[derive(Clone, Copy, Debug, PartialEq, Eq, Structural)]
pub enum Expected {
    /// The start of a declaration.
    Declaration,
    /// A name.
    Name,
    /// A quoted text, a name or a number.
    Value,
    /// A member of a field list, or its closing brace.
    Field,
    /// One of `attributes`, `derive` and `traits`.
    ClauseName,
    /// One of `static` and `manual`.
    MarkerName,
    /// The word `struct`.
    StructKeyword,
    /// This character.
    Symbol(char),
}

/// The place where a text fails, and what was asked for there.
#[derive(Clone, Copy, Debug, PartialEq, Eq)]
pub struct Failure {
    /// Index of the character that does not fit.
    pub offset: usize,
    /// What would have fitted.
    pub expected: Expected,
}

/// Outcome of a rule at a position: what it gives and where it ends, or where it fails.
pub enum Step<T> {
    Done(T, int),
    Failed(int, Expected),
}

/// A tree without children over `s[start..end]`.
pub open spec fn leaf(rule: Rule, s: Seq<char>, start: int, end: int) -> Tree {
    Tree { rule, text: s.subrange(start, end), children: Seq::empty() }
}

/// A tree with `children` over `s[start..end]`.
pub open spec fn branch(rule: Rule, s: Seq<char>, start: int, end: int, children: Seq<Tree>) -> Tree {
    Tree { rule, text: s.subrange(start, end), children }
}

/// `name`, as a leaf of `rule`.
pub open spec fn spec_name(s: Seq<char>, pos: int, rule: Rule) -> Step<Tree> {
    if 0 <= pos < s.len() && is_name_start(s[pos]) {
        let end = run_end(s, pos, CharClass::Word);
        Step::Done(leaf(rule, s, pos, end), end)
    } else {
        Step::Failed(pos, Expected::Name)
    }
}

/// `name_or_num`
pub open spec fn spec_name_or_num(s: Seq<char>, pos: int) -> Step<Tree> {
    if 0 <= pos < s.len() && in_class(CharClass::Word, s[pos]) {
        let end = run_end(s, pos, CharClass::Word);
        Step::Done(leaf(Rule::NameOrNum, s, pos, end), end)
    } else {
        Step::Failed(pos, Expected::Value)
    }
}

/// A quoted text as a leaf of `rule`, or `name_or_num`.
pub open spec fn spec_value(s: Seq<char>, pos: int, rule: Rule, class: CharClass) -> Step<Tree> {
    if at(s, pos, '"') {
        let close = run_end(s, pos + 1, class);
        if at(s, close, '"') {
            Step::Done(leaf(rule, s, pos, close + 1), close + 1)
        } else {
            Step::Failed(close, Expected::Symbol('"'))
        }
    } else {
        spec_name_or_num(s, pos)
    }
}

/// The names of `namelist` from `pos` on, behind `acc`.
pub open spec fn spec_names(s: Seq<char>, pos: int, acc: Seq<Tree>) -> Step<Seq<Tree>>
    decreases left(s, pos),
{
    match spec_name(s, pos, Rule::Name) {
        Step::Failed(p, e) => Step::Failed(p, e),
        Step::Done(name, end) => {
            let comma = skip(s, end);
            if at(s, comma, ',') {
                spec_names(s, skip(s, comma + 1), acc.push(name))
            } else {
                Step::Done(acc.push(name), end)
            }
        },
    }
}

/// A name list that matches ends behind its start.
pub proof fn lemma_names_advance(s: Seq<char>, pos: int, acc: Seq<Tree>)
    ensures
        spec_names(s, pos, acc) matches Step::Done(_, end) ==> pos < end,
    decreases left(s, pos),
{
    if let Step::Done(name, end) = spec_name(s, pos, Rule::Name) {
        let comma = skip(s, end);
        if at(s, comma, ',') {
            lemma_names_advance(s, skip(s, comma + 1), acc.push(name));
        }
    }
}

/// The rule of the clause that the word `w` opens.
pub open spec fn clause_rule(w: Seq<char>) -> Option<Rule> {
    if w == "attributes"@ {
        Some(Rule::Attributes)
    } else if w == "derive"@ {
        Some(Rule::Derive)
    } else if w == "traits"@ {
        Some(Rule::Traits)
    } else {
        None
    }
}

/// `clause`, at its `#`.
pub open spec fn spec_clause(s: Seq<char>, pos: int) -> Step<Tree> {
    let key = skip(s, pos + 2);
    let open = skip(s, run_end(s, key, CharClass::Word));
    let first = skip(s, open + 1);
    if !at(s, pos + 1, '[') {
        Step::Failed(pos + 1, Expected::Symbol('['))
    } else if clause_rule(word(s, key)) is None {
        Step::Failed(key, Expected::ClauseName)
    } else if !at(s, open, '(') {
        Step::Failed(open, Expected::Symbol('('))
    } else {
        match spec_names(s, first, Seq::empty()) {
            Step::Failed(p, e) => Step::Failed(p, e),
            Step::Done(names, end) => {
                let close = skip(s, end);
                let bracket = skip(s, close + 1);
                if !at(s, close, ')') {
                    Step::Failed(close, Expected::Symbol(')'))
                } else if !at(s, bracket, ']') {
                    Step::Failed(bracket, Expected::Symbol(']'))
                } else {
                    Step::Done(
                        branch(
                            clause_rule(word(s, key))->0,
                            s,
                            pos,
                            bracket + 1,
                            seq![branch(Rule::Namelist, s, first, end, names)],
                        ),
                        bracket + 1,
                    )
                }
            },
        }
    }
}

/// A clause that matches ends behind its start.
pub proof fn lemma_clause_advances(s: Seq<char>, pos: int)
    ensures
        spec_clause(s, pos) matches Step::Done(_, end) ==> pos < end,
{
    lemma_names_advance(s, skip(s, skip(s, run_end(s, skip(s, pos + 2), CharClass::Word)) + 1), Seq::empty());
}

/// The clauses from `pos` on, behind `acc`; ends at the first token that is no `#`.
pub open spec fn spec_clauses(s: Seq<char>, pos: int, acc: Seq<Tree>) -> Step<Seq<Tree>>
    decreases left(s, pos),
{
    if at(s, pos, '#') {
        match spec_clause(s, pos) {
            Step::Failed(p, e) => Step::Failed(p, e),
            Step::Done(clause, end) => {
                proof {
                    lemma_clause_advances(s, pos);
                }
                spec_clauses(s, skip(s, end), acc.push(clause))
            },
        }
    } else {
        Step::Done(acc, pos)
    }
}

/// `type_ref`: its nodes behind `acc`.
pub open spec fn spec_type_ref(s: Seq<char>, pos: int, acc: Seq<Tree>) -> Step<Seq<Tree>> {
    let after_const = run_end(s, pos + 1, CharClass::Word);
    let (parts, name) = if at(s, pos, '&') {
        (acc.push(leaf(Rule::RefExp, s, pos, pos + 1)), pos + 1)
    } else if at(s, pos, '*') && word(s, pos + 1) == "const"@ {
        (acc.push(leaf(Rule::ConstPtrExp, s, pos, after_const)), after_const)
    } else if at(s, pos, '*') {
        (acc.push(leaf(Rule::PointerExp, s, pos, pos + 1)), pos + 1)
    } else {
        (acc, pos)
    };
    match spec_name(s, skip(s, name), Rule::VType) {
        Step::Failed(p, e) => Step::Failed(p, e),
        Step::Done(vtype, end) => Step::Done(parts.push(vtype), end),
    }
}

/// `array`, at its `[`.
pub open spec fn spec_array(s: Seq<char>, pos: int) -> Step<Tree> {
    match spec_type_ref(s, skip(s, pos + 1), Seq::empty()) {
        Step::Failed(p, e) => Step::Failed(p, e),
        Step::Done(parts, end) => {
            let semi = skip(s, end);
            if at(s, semi, ';') {
                match spec_name_or_num(s, skip(s, semi + 1)) {
                    Step::Failed(p, e) => Step::Failed(p, e),
                    Step::Done(size, size_end) => {
                        let close = skip(s, size_end);
                        if at(s, close, ']') {
                            Step::Done(
                                branch(
                                    Rule::Array,
                                    s,
                                    pos,
                                    close + 1,
                                    parts.push(branch(Rule::ArraySize, s, semi, size_end, seq![size])),
                                ),
                                close + 1,
                            )
                        } else {
                            Step::Failed(close, Expected::Symbol(']'))
                        }
                    },
                }
            } else if at(s, semi, ']') {
                Step::Done(branch(Rule::Array, s, pos, semi + 1, parts), semi + 1)
            } else {
                Step::Failed(semi, Expected::Symbol(']'))
            }
        },
    }
}

/// `type`: its nodes behind `acc`.
pub open spec fn spec_type(s: Seq<char>, pos: int, acc: Seq<Tree>) -> Step<Seq<Tree>> {
    let inner = if at(s, pos, '[') {
        match spec_array(s, pos) {
            Step::Failed(p, e) => Step::Failed(p, e),
            Step::Done(array, end) => Step::Done(acc.push(array), end),
        }
    } else {
        spec_type_ref(s, pos, acc)
    };
    match inner {
        Step::Failed(p, e) => Step::Failed(p, e),
        Step::Done(parts, end) => {
            let mark = skip(s, end);
            if at(s, mark, '?') {
                Step::Done(parts.push(leaf(Rule::Optional, s, mark, mark + 1)), mark + 1)
            } else {
                Step::Done(parts, end)
            }
        },
    }
}

/// `var`
pub open spec fn spec_var(s: Seq<char>, pos: int) -> Step<Tree> {
    match spec_name(s, pos, Rule::Name) {
        Step::Failed(p, e) => Step::Failed(p, e),
        Step::Done(name, name_end) => {
            let colon = skip(s, name_end);
            if !at(s, colon, ':') {
                Step::Failed(colon, Expected::Symbol(':'))
            } else {
                match spec_type(s, skip(s, colon + 1), seq![name]) {
                    Step::Failed(p, e) => Step::Failed(p, e),
                    Step::Done(parts, end) => {
                        let assign = skip(s, end);
                        if at(s, assign, '=') {
                            match spec_value(
                                s,
                                skip(s, assign + 1),
                                Rule::StringLit,
                                CharClass::QuotedLine,
                            ) {
                                Step::Failed(p, e) => Step::Failed(p, e),
                                Step::Done(value, value_end) => Step::Done(
                                    branch(
                                        Rule::Var,
                                        s,
                                        pos,
                                        value_end,
                                        parts.push(
                                            branch(Rule::DefaultVal, s, assign, value_end, seq![value]),
                                        ),
                                    ),
                                    value_end,
                                ),
                            }
                        } else {
                            Step::Done(branch(Rule::Var, s, pos, end, parts), end)
                        }
                    },
                }
            }
        },
    }
}

/// A variable that matches ends behind its start.
pub proof fn lemma_var_advances(s: Seq<char>, pos: int)
    ensures
        spec_var(s, pos) matches Step::Done(_, end) ==> pos < end,
{
}

/// The variables of `varlist` from `pos` on, behind `acc`, and the closing parenthesis.
pub open spec fn spec_vars(s: Seq<char>, pos: int, acc: Seq<Tree>) -> Step<Seq<Tree>>
    decreases left(s, pos),
{
    match spec_var(s, pos) {
        Step::Failed(p, e) => Step::Failed(p, e),
        Step::Done(var, end) => {
            let comma = skip(s, end);
            if at(s, comma, ',') {
                spec_vars(s, skip(s, comma + 1), acc.push(var))
            } else if at(s, comma, ')') {
                Step::Done(acc.push(var), comma + 1)
            } else {
                Step::Failed(comma, Expected::Symbol(')'))
            }
        },
    }
}

/// A list of variables that matches ends behind its start.
pub proof fn lemma_vars_advance(s: Seq<char>, pos: int, acc: Seq<Tree>)
    ensures
        spec_vars(s, pos, acc) matches Step::Done(_, end) ==> pos < end,
    decreases left(s, pos),
{
    lemma_var_advances(s, pos);
    if let Step::Done(var, end) = spec_var(s, pos) {
        let comma = skip(s, end);
        if at(s, comma, ',') {
            lemma_vars_advance(s, skip(s, comma + 1), acc.push(var));
        }
    }
}

/// `varlist`
pub open spec fn spec_varlist(s: Seq<char>, pos: int) -> Step<Tree> {
    let first = skip(s, pos + 1);
    if !at(s, pos, '(') {
        Step::Failed(pos, Expected::Symbol('('))
    } else if at(s, first, ')') {
        Step::Done(branch(Rule::Varlist, s, pos, first + 1, Seq::empty()), first + 1)
    } else {
        match spec_vars(s, first, Seq::empty()) {
            Step::Failed(p, e) => Step::Failed(p, e),
            Step::Done(vars, end) => Step::Done(branch(Rule::Varlist, s, pos, end, vars), end),
        }
    }
}

/// The rule of the marker that the word `w` names.
pub open spec fn marker_rule(w: Seq<char>) -> Option<Rule> {
    if w == "static"@ {
        Some(Rule::StaticTyp)
    } else if w == "manual"@ {
        Some(Rule::ManualTyp)
    } else {
        None
    }
}

/// The markers of a function from `pos` on, behind `acc`; ends at the first token
/// that is no `[`.
pub open spec fn spec_markers(s: Seq<char>, pos: int, acc: Seq<Tree>) -> Step<Seq<Tree>>
    decreases left(s, pos),
{
    let key = skip(s, pos + 1);
    let close = skip(s, run_end(s, key, CharClass::Word));
    if !at(s, pos, '[') {
        Step::Done(acc, pos)
    } else if marker_rule(word(s, key)) is None {
        Step::Failed(key, Expected::MarkerName)
    } else if !at(s, close, ']') {
        Step::Failed(close, Expected::Symbol(']'))
    } else {
        spec_markers(
            s,
            skip(s, close + 1),
            acc.push(leaf(marker_rule(word(s, key))->0, s, pos, close + 1)),
        )
    }
}

/// The markers of a function end at their start or behind it.
pub proof fn lemma_markers_advance(s: Seq<char>, pos: int, acc: Seq<Tree>)
    ensures
        spec_markers(s, pos, acc) matches Step::Done(_, end) ==> pos <= end,
    decreases left(s, pos),
{
    let key = skip(s, pos + 1);
    let close = skip(s, run_end(s, key, CharClass::Word));
    if at(s, pos, '[') && marker_rule(word(s, key)) is Some && at(s, close, ']') {
        lemma_markers_advance(
            s,
            skip(s, close + 1),
            acc.push(leaf(marker_rule(word(s, key))->0, s, pos, close + 1)),
        );
    }
}

/// `function`
pub open spec fn spec_function(s: Seq<char>, pos: int) -> Step<Tree> {
    match spec_markers(s, pos, Seq::empty()) {
        Step::Failed(p, e) => Step::Failed(p, e),
        Step::Done(markers, name_pos) => match spec_name(s, name_pos, Rule::Name) {
            Step::Failed(p, e) => Step::Failed(p, e),
            Step::Done(name, name_end) => match spec_varlist(s, skip(s, name_end)) {
                Step::Failed(p, e) => Step::Failed(p, e),
                Step::Done(args, args_end) => {
                    let arrow = skip(s, args_end);
                    let parts = markers.push(name).push(args);
                    if at(s, arrow, '-') && at(s, arrow + 1, '>') {
                        match spec_type(s, skip(s, arrow + 2), Seq::empty()) {
                            Step::Failed(p, e) => Step::Failed(p, e),
                            Step::Done(ret, end) => Step::Done(
                                branch(
                                    Rule::Function,
                                    s,
                                    pos,
                                    end,
                                    parts.push(branch(Rule::RetExp, s, arrow, end, ret)),
                                ),
                                end,
                            ),
                        }
                    } else {
                        Step::Done(branch(Rule::Function, s, pos, args_end, parts), args_end)
                    }
                },
            },
        },
    }
}

/// A function that matches ends behind its start.
pub proof fn lemma_function_advances(s: Seq<char>, pos: int)
    ensures
        spec_function(s, pos) matches Step::Done(_, end) ==> pos < end,
{
    lemma_markers_advance(s, pos, Seq::empty());
    if let Step::Done(_, name_pos) = spec_markers(s, pos, Seq::empty()) {
        if let Step::Done(_, name_end) = spec_name(s, name_pos, Rule::Name) {
            lemma_vars_advance(s, skip(s, skip(s, name_end) + 1), Seq::empty());
        }
    }
}

/// `enum_entry`
pub open spec fn spec_enum_entry(s: Seq<char>, pos: int) -> Step<Tree> {
    match spec_name(s, pos, Rule::Name) {
        Step::Failed(p, e) => Step::Failed(p, e),
        Step::Done(name, name_end) => {
            let assign = skip(s, name_end);
            if at(s, assign, '=') {
                match spec_name_or_num(s, skip(s, assign + 1)) {
                    Step::Failed(p, e) => Step::Failed(p, e),
                    Step::Done(value, end) => Step::Done(
                        branch(
                            Rule::EnumEntry,
                            s,
                            pos,
                            end,
                            seq![name, branch(Rule::EnumAssign, s, assign, end, seq![value])],
                        ),
                        end,
                    ),
                }
            } else {
                Step::Done(branch(Rule::EnumEntry, s, pos, name_end, seq![name]), name_end)
            }
        },
    }
}

/// `field`: a function where a marker or, behind the name, a parenthesis opens it;
/// a variable where a colon follows the name; an enum entry otherwise.
pub open spec fn spec_field(s: Seq<char>, pos: int) -> Step<Tree> {
    let member = if at(s, pos, '[') {
        spec_function(s, pos)
    } else if !(0 <= pos < s.len() && is_name_start(s[pos])) {
        Step::Failed(pos, Expected::Field)
    } else {
        let next = skip(s, run_end(s, pos, CharClass::Word));
        if at(s, next, '(') {
            spec_function(s, pos)
        } else if at(s, next, ':') {
            spec_var(s, pos)
        } else {
            spec_enum_entry(s, pos)
        }
    };
    match member {
        Step::Failed(p, e) => Step::Failed(p, e),
        Step::Done(inner, end) => Step::Done(branch(Rule::Field, s, pos, end, seq![inner]), end),
    }
}

/// A field that matches ends behind its start.
pub proof fn lemma_field_advances(s: Seq<char>, pos: int)
    ensures
        spec_field(s, pos) matches Step::Done(_, end) ==> pos < end,
{
    lemma_function_advances(s, pos);
    lemma_var_advances(s, pos);
}

/// The members of `fieldlist` from `pos` on, behind `acc`, and the closing brace.
pub open spec fn spec_fields(s: Seq<char>, pos: int, acc: Seq<Tree>) -> Step<Seq<Tree>>
    decreases left(s, pos),
{
    if at(s, pos, '}') {
        Step::Done(acc, pos + 1)
    } else if doc_at(s, pos) {
        let end = run_end(s, pos, CharClass::Line);
        spec_fields(s, skip(s, end), acc.push(leaf(Rule::DocComment, s, pos, end)))
    } else {
        match spec_field(s, pos) {
            Step::Failed(p, e) => Step::Failed(p, e),
            Step::Done(field, end) => {
                let comma = skip(s, end);
                let next = if at(s, comma, ',') {
                    skip(s, comma + 1)
                } else {
                    comma
                };
                proof {
                    lemma_field_advances(s, pos);
                }
                spec_fields(s, next, acc.push(field))
            },
        }
    }
}

/// The members of a field list end behind their start.
pub proof fn lemma_fields_advance(s: Seq<char>, pos: int, acc: Seq<Tree>)
    ensures
        spec_fields(s, pos, acc) matches Step::Done(_, end) ==> pos < end,
    decreases left(s, pos),
{
    if at(s, pos, '}') {
    } else if doc_at(s, pos) {
        let end = run_end(s, pos, CharClass::Line);
        lemma_fields_advance(s, skip(s, end), acc.push(leaf(Rule::DocComment, s, pos, end)));
    } else {
        lemma_field_advances(s, pos);
        if let Step::Done(field, end) = spec_field(s, pos) {
            let comma = skip(s, end);
            let next = if at(s, comma, ',') {
                skip(s, comma + 1)
            } else {
                comma
            };
            lemma_fields_advance(s, next, acc.push(field));
        }
    }
}

/// `fieldlist`
pub open spec fn spec_fieldlist(s: Seq<char>, pos: int) -> Step<Tree> {
    if !at(s, pos, '{') {
        Step::Failed(pos, Expected::Symbol('{'))
    } else {
        match spec_fields(s, skip(s, pos + 1), Seq::empty()) {
            Step::Failed(p, e) => Step::Failed(p, e),
            Step::Done(members, end) => Step::Done(
                branch(Rule::Fieldlist, s, pos, end, members),
                end,
            ),
        }
    }
}

/// A name and a field list behind the keyword that ends at `pos`, as a node of `rule`
/// that starts at `start` and holds `front` before them.
pub open spec fn spec_record(s: Seq<char>, start: int, pos: int, rule: Rule, front: Seq<Tree>) -> Step<Tree> {
    match spec_name(s, skip(s, pos), Rule::Name) {
        Step::Failed(p, e) => Step::Failed(p, e),
        Step::Done(name, name_end) => match spec_fieldlist(s, skip(s, name_end)) {
            Step::Failed(p, e) => Step::Failed(p, e),
            Step::Done(members, end) => Step::Done(
                branch(rule, s, start, end, front.push(name).push(members)),
                end,
            ),
        },
    }
}

/// `structdef`
pub open spec fn spec_struct(s: Seq<char>, pos: int) -> Step<Tree> {
    match spec_clauses(s, pos, Seq::empty()) {
        Step::Failed(p, e) => Step::Failed(p, e),
        Step::Done(clauses, key) => {
            if word(s, key) == "struct"@ {
                spec_record(s, pos, run_end(s, key, CharClass::Word), Rule::StructDef, clauses)
            } else {
                Step::Failed(key, Expected::StructKeyword)
            }
        },
    }
}

/// `enumdef`, behind its keyword that ends at `pos`.
pub open spec fn spec_enum(s: Seq<char>, start: int, pos: int) -> Step<Tree> {
    match spec_record(s, start, pos, Rule::EnumDef, Seq::empty()) {
        Step::Failed(p, e) => Step::Failed(p, e),
        Step::Done(plain, end) => {
            let key = skip(s, end);
            if word(s, key) == "flags"@ {
                match spec_name(s, skip(s, run_end(s, key, CharClass::Word)), Rule::Name) {
                    Step::Failed(p, e) => Step::Failed(p, e),
                    Step::Done(alias, alias_end) => Step::Done(
                        branch(
                            Rule::EnumDef,
                            s,
                            start,
                            alias_end,
                            plain.children.push(
                                branch(Rule::EnumFlags, s, key, alias_end, seq![alias]),
                            ),
                        ),
                        alias_end,
                    ),
                }
            } else {
                Step::Done(plain, end)
            }
        },
    }
}

/// `const_value`, behind its keyword that ends at `pos`.
pub open spec fn spec_const(s: Seq<char>, start: int, pos: int) -> Step<Tree> {
    match spec_name(s, skip(s, pos), Rule::Name) {
        Step::Failed(p, e) => Step::Failed(p, e),
        Step::Done(name, name_end) => {
            let assign = skip(s, name_end);
            if !at(s, assign, '=') {
                Step::Failed(assign, Expected::Symbol('='))
            } else {
                match spec_value(s, skip(s, assign + 1), Rule::RawString, CharClass::Quoted) {
                    Step::Failed(p, e) => Step::Failed(p, e),
                    Step::Done(value, end) => Step::Done(
                        branch(Rule::ConstValue, s, start, end, seq![name, value]),
                        end,
                    ),
                }
            }
        },
    }
}

/// A node of `rule` from `start` on around what `inner` gave.
pub open spec fn wrap(s: Seq<char>, start: int, rule: Rule, inner: Step<Tree>) -> Step<Tree> {
    match inner {
        Step::Failed(p, e) => Step::Failed(p, e),
        Step::Done(tree, end) => Step::Done(branch(rule, s, start, end, seq![tree]), end),
    }
}

/// `chunk`
pub open spec fn spec_chunk(s: Seq<char>, pos: int) -> Step<Tree> {
    let w = word(s, pos);
    let after = run_end(s, pos, CharClass::Word);
    if doc_at(s, pos) {
        let end = run_end(s, pos, CharClass::Line);
        Step::Done(leaf(Rule::DocComment, s, pos, end), end)
    } else if at(s, pos, '#') || w == "struct"@ {
        spec_struct(s, pos)
    } else if w == "union"@ {
        spec_record(s, pos, after, Rule::UnionDef, Seq::empty())
    } else if w == "enum"@ {
        spec_enum(s, pos, after)
    } else if w == "callback"@ {
        wrap(s, pos, Rule::CallbackDef, spec_function(s, skip(s, after)))
    } else if w == "mod"@ {
        wrap(s, pos, Rule::ModDef, spec_name(s, skip(s, after), Rule::Name))
    } else if w == "type"@ {
        wrap(s, pos, Rule::TypeValue, spec_var(s, skip(s, after)))
    } else if w == "const"@ {
        spec_const(s, pos, after)
    } else {
        Step::Failed(pos, Expected::Declaration)
    }
}

/// The clauses of a struct end at their start or behind it.
pub proof fn lemma_clauses_advance(s: Seq<char>, pos: int, acc: Seq<Tree>)
    ensures
        spec_clauses(s, pos, acc) matches Step::Done(_, end) ==> pos <= end,
    decreases left(s, pos),
{
    if at(s, pos, '#') {
        lemma_clause_advances(s, pos);
        if let Step::Done(clause, end) = spec_clause(s, pos) {
            lemma_clauses_advance(s, skip(s, end), acc.push(clause));
        }
    }
}

/// A name and a field list end behind the keyword before them.
pub proof fn lemma_record_advances(s: Seq<char>, start: int, pos: int, rule: Rule, front: Seq<Tree>)
    ensures
        spec_record(s, start, pos, rule, front) matches Step::Done(_, end) ==> pos < end,
{
    if let Step::Done(_, name_end) = spec_name(s, skip(s, pos), Rule::Name) {
        lemma_fields_advance(s, skip(s, skip(s, name_end) + 1), Seq::empty());
    }
}

/// A chunk that matches ends behind its start.
pub proof fn lemma_chunk_advances(s: Seq<char>, pos: int)
    requires
        0 <= pos < s.len(),
    ensures
        spec_chunk(s, pos) matches Step::Done(_, end) ==> pos < end,
{
    let after = run_end(s, pos, CharClass::Word);
    lemma_clauses_advance(s, pos, Seq::empty());
    if let Step::Done(clauses, key) = spec_clauses(s, pos, Seq::empty()) {
        lemma_record_advances(s, pos, run_end(s, key, CharClass::Word), Rule::StructDef, clauses);
    }
    lemma_record_advances(s, pos, after, Rule::UnionDef, Seq::empty());
    lemma_record_advances(s, pos, after, Rule::EnumDef, Seq::empty());
    lemma_function_advances(s, skip(s, after));
    lemma_var_advances(s, skip(s, after));
}

/// The chunks from `pos` on, behind `acc`, up to the end of the text.
pub open spec fn spec_chunks(s: Seq<char>, pos: int, acc: Seq<Tree>) -> Step<Seq<Tree>>
    decreases left(s, pos),
{
    if pos < 0 || pos >= s.len() {
        Step::Done(acc, pos)
    } else {
        match spec_chunk(s, pos) {
            Step::Failed(p, e) => Step::Failed(p, e),
            Step::Done(chunk, end) => {
                proof {
                    lemma_chunk_advances(s, pos);
                }
                spec_chunks(s, skip(s, end), acc.push(chunk))
            },
        }
    }
}

/// `file`: the chunks of the whole text.
pub open spec fn spec_file(s: Seq<char>) -> Step<Seq<Tree>> {
    spec_chunks(s, skip(s, 0), Seq::empty())
}

} // verus!
