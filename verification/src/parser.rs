//! The parser: from the characters of a definition file to its syntax tree.
//!
//! Each function computes what the spec function of the same rule in
//! [`crate::grammar`] defines.

use vstd::prelude::*;
use crate::grammar::{
    branch, clause_rule, leaf, marker_rule, spec_array, spec_chunk, spec_chunks, spec_clause,
    spec_clauses, spec_const, spec_enum, spec_enum_entry, spec_field, spec_fieldlist, spec_fields,
    spec_file, spec_function, spec_markers, spec_name, spec_name_or_num, spec_names, spec_record,
    spec_struct, spec_type, spec_type_ref, spec_value, spec_var, spec_varlist, spec_vars, wrap,
    Expected, Failure, Step,
};
use crate::lexis::{
    belongs, name_start, peek, peek_doc, read_word, reads, scan, skip_space, CharClass,
};
use crate::text::substring;
use crate::tree::{forest, lemma_forest_push, Node, Rule, Tree};

verus! {

/// What a rule that gives one node came to.
pub open spec fn node_step(res: Result<(Node, usize), Failure>) -> Step<Tree> {
    match res {
        Ok((node, end)) => Step::Done(node@, end as int),
        Err(failure) => Step::Failed(failure.offset as int, failure.expected),
    }
}

/// What a rule that gives a list of nodes came to.
pub open spec fn nodes_step(res: Result<(Vec<Node>, usize), Failure>) -> Step<Seq<Tree>> {
    match res {
        Ok((nodes, end)) => Step::Done(forest(nodes@), end as int),
        Err(failure) => Step::Failed(failure.offset as int, failure.expected),
    }
}

/// A node of `rule` over `chars[start..end]` around `children`.
fn make(rule: Rule, chars: &Vec<char>, start: usize, end: usize, children: Vec<Node>) -> (node: Node)
    requires
        start <= end <= chars.len(),
    ensures
        node@ == branch(rule, chars@, start as int, end as int, forest(children@)),
{
    Node::new(rule, substring(chars, start, end), children)
}

/// A node of `rule` over `chars[start..end]` without children.
fn make_leaf(rule: Rule, chars: &Vec<char>, start: usize, end: usize) -> (node: Node)
    requires
        start <= end <= chars.len(),
    ensures
        node@ == leaf(rule, chars@, start as int, end as int),
{
    let children: Vec<Node> = Vec::new();
    assert(forest(children@) == Seq::<Tree>::empty());
    make(rule, chars, start, end, children)
}

/// A list that holds `node` alone.
fn single(node: Node) -> (list: Vec<Node>)
    ensures
        forest(list@) == seq![node@],
{
    let mut list: Vec<Node> = Vec::new();
    assert(forest(list@) == Seq::<Tree>::empty());
    proof {
        lemma_forest_push(list@, node);
    }
    list.push(node);
    assert(forest(list@) =~= seq![node@]);
    list
}

/// A list that holds `first` and `second`.
fn pair(first: Node, second: Node) -> (list: Vec<Node>)
    ensures
        forest(list@) == seq![first@, second@],
{
    let ghost trees = seq![first@, second@];
    let list = with(single(first), second);
    assert(forest(list@) =~= trees);
    list
}

/// An empty list.
fn none() -> (list: Vec<Node>)
    ensures
        forest(list@) == Seq::<Tree>::empty(),
{
    let list: Vec<Node> = Vec::new();
    assert(forest(list@) == Seq::<Tree>::empty());
    list
}

/// `list` with `node` behind it.
fn with(list: Vec<Node>, node: Node) -> (longer: Vec<Node>)
    ensures
        forest(longer@) == forest(list@).push(node@),
{
    let mut longer = list;
    proof {
        lemma_forest_push(longer@, node);
    }
    longer.push(node);
    longer
}

/// The failure at `offset`.
fn failed(offset: usize, expected: Expected) -> (failure: Failure)
    ensures
        failure.offset == offset,
        failure.expected == expected,
{
    Failure { offset, expected }
}

/// `name`, as a leaf of `rule`.
fn name(chars: &Vec<char>, pos: usize, rule: Rule) -> (res: Result<(Node, usize), Failure>)
    requires
        pos <= chars.len(),
    ensures
        node_step(res) == spec_name(chars@, pos as int, rule),
        res matches Ok(done) ==> pos < done.1 <= chars.len(),
        res matches Err(failure) ==> failure.offset <= chars.len(),
{
    if pos < chars.len() && name_start(chars[pos]) {
        let end = scan(chars, pos, CharClass::Word);
        Ok((make_leaf(rule, chars, pos, end), end))
    } else {
        Err(failed(pos, Expected::Name))
    }
}

/// `name_or_num`
fn name_or_num(chars: &Vec<char>, pos: usize) -> (res: Result<(Node, usize), Failure>)
    requires
        pos <= chars.len(),
    ensures
        node_step(res) == spec_name_or_num(chars@, pos as int),
        res matches Ok(done) ==> pos < done.1 <= chars.len(),
        res matches Err(failure) ==> failure.offset <= chars.len(),
{
    if pos < chars.len() && belongs(CharClass::Word, chars[pos]) {
        let end = scan(chars, pos, CharClass::Word);
        Ok((make_leaf(Rule::NameOrNum, chars, pos, end), end))
    } else {
        Err(failed(pos, Expected::Value))
    }
}

/// A quoted text as a leaf of `rule`, or `name_or_num`.
fn value(chars: &Vec<char>, pos: usize, rule: Rule, class: CharClass) -> (res: Result<
    (Node, usize),
    Failure,
>)
    requires
        pos <= chars.len(),
    ensures
        node_step(res) == spec_value(chars@, pos as int, rule, class),
        res matches Ok(done) ==> pos < done.1 <= chars.len(),
        res matches Err(failure) ==> failure.offset <= chars.len(),
{
    if peek(chars, pos, '"') {
        let close = scan(chars, pos + 1, class);
        if peek(chars, close, '"') {
            Ok((make_leaf(rule, chars, pos, close + 1), close + 1))
        } else {
            Err(failed(close, Expected::Symbol('"')))
        }
    } else {
        name_or_num(chars, pos)
    }
}

/// The names of `namelist` from `pos` on.
fn names(chars: &Vec<char>, pos: usize) -> (res: Result<(Vec<Node>, usize), Failure>)
    requires
        pos <= chars.len(),
    ensures
        nodes_step(res) == spec_names(chars@, pos as int, Seq::empty()),
        res matches Ok(done) ==> pos < done.1 <= chars.len(),
        res matches Err(failure) ==> failure.offset <= chars.len(),
{
    let mut list = none();
    let mut cur = pos;
    loop
        invariant
            pos <= cur <= chars.len(),
            spec_names(chars@, cur as int, forest(list@)) == spec_names(
                chars@,
                pos as int,
                Seq::empty(),
            ),
        decreases chars.len() - cur,
    {
        match name(chars, cur, Rule::Name) {
            Err(failure) => {
                return Err(failure);
            },
            Ok((node, end)) => {
                list = with(list, node);
                let comma = skip_space(chars, end);
                if peek(chars, comma, ',') {
                    cur = skip_space(chars, comma + 1);
                } else {
                    return Ok((list, end));
                }
            },
        }
    }
}

/// The rule of the clause that `w` opens.
fn clause_of(w: &String) -> (rule: Option<Rule>)
    ensures
        rule == clause_rule(w@),
{
    if reads(w, "attributes") {
        Some(Rule::Attributes)
    } else if reads(w, "derive") {
        Some(Rule::Derive)
    } else if reads(w, "traits") {
        Some(Rule::Traits)
    } else {
        None
    }
}

/// `clause`, at its `#`.
fn clause(chars: &Vec<char>, pos: usize) -> (res: Result<(Node, usize), Failure>)
    requires
        pos < chars.len(),
    ensures
        node_step(res) == spec_clause(chars@, pos as int),
        res matches Ok(done) ==> pos < done.1 <= chars.len(),
        res matches Err(failure) ==> failure.offset <= chars.len(),
{
    if !peek(chars, pos + 1, '[') {
        return Err(failed(pos + 1, Expected::Symbol('[')));
    }
    let key = skip_space(chars, pos + 2);
    let (w, key_end) = read_word(chars, key);
    let rule = match clause_of(&w) {
        None => {
            return Err(failed(key, Expected::ClauseName));
        },
        Some(rule) => rule,
    };
    let open = skip_space(chars, key_end);
    if !peek(chars, open, '(') {
        return Err(failed(open, Expected::Symbol('(')));
    }
    let first = skip_space(chars, open + 1);
    match names(chars, first) {
        Err(failure) => Err(failure),
        Ok((list, end)) => {
            let close = skip_space(chars, end);
            if !peek(chars, close, ')') {
                return Err(failed(close, Expected::Symbol(')')));
            }
            let bracket = skip_space(chars, close + 1);
            if !peek(chars, bracket, ']') {
                return Err(failed(bracket, Expected::Symbol(']')));
            }
            let namelist = make(Rule::Namelist, chars, first, end, list);
            Ok((make(rule, chars, pos, bracket + 1, single(namelist)), bracket + 1))
        },
    }
}

/// The clauses from `pos` on.
fn clauses(chars: &Vec<char>, pos: usize) -> (res: Result<(Vec<Node>, usize), Failure>)
    requires
        pos <= chars.len(),
    ensures
        nodes_step(res) == spec_clauses(chars@, pos as int, Seq::empty()),
        res matches Ok(done) ==> pos <= done.1 <= chars.len(),
        res matches Err(failure) ==> failure.offset <= chars.len(),
{
    let mut list = none();
    let mut cur = pos;
    while peek(chars, cur, '#')
        invariant
            pos <= cur <= chars.len(),
            spec_clauses(chars@, cur as int, forest(list@)) == spec_clauses(
                chars@,
                pos as int,
                Seq::empty(),
            ),
        decreases chars.len() - cur,
    {
        match clause(chars, cur) {
            Err(failure) => {
                return Err(failure);
            },
            Ok((node, end)) => {
                list = with(list, node);
                cur = skip_space(chars, end);
            },
        }
    }
    Ok((list, cur))
}

/// `type_ref`: its nodes behind `acc`.
fn type_ref(chars: &Vec<char>, pos: usize, acc: Vec<Node>) -> (res: Result<
    (Vec<Node>, usize),
    Failure,
>)
    requires
        pos <= chars.len(),
    ensures
        nodes_step(res) == spec_type_ref(chars@, pos as int, forest(acc@)),
        res matches Ok(done) ==> pos < done.1 <= chars.len(),
        res matches Err(failure) ==> failure.offset <= chars.len(),
{
    let mut parts = acc;
    let mut start = pos;
    if peek(chars, pos, '&') {
        parts = with(parts, make_leaf(Rule::RefExp, chars, pos, pos + 1));
        start = pos + 1;
    } else if peek(chars, pos, '*') {
        let (w, after_const) = read_word(chars, pos + 1);
        if reads(&w, "const") {
            parts = with(parts, make_leaf(Rule::ConstPtrExp, chars, pos, after_const));
            start = after_const;
        } else {
            parts = with(parts, make_leaf(Rule::PointerExp, chars, pos, pos + 1));
            start = pos + 1;
        }
    }
    match name(chars, skip_space(chars, start), Rule::VType) {
        Err(failure) => Err(failure),
        Ok((vtype, end)) => Ok((with(parts, vtype), end)),
    }
}

/// `array`, at its `[`.
fn array(chars: &Vec<char>, pos: usize) -> (res: Result<(Node, usize), Failure>)
    requires
        pos < chars.len(),
    ensures
        node_step(res) == spec_array(chars@, pos as int),
        res matches Ok(done) ==> pos < done.1 <= chars.len(),
        res matches Err(failure) ==> failure.offset <= chars.len(),
{
    match type_ref(chars, skip_space(chars, pos + 1), none()) {
        Err(failure) => Err(failure),
        Ok((parts, end)) => {
            let semi = skip_space(chars, end);
            if peek(chars, semi, ';') {
                match name_or_num(chars, skip_space(chars, semi + 1)) {
                    Err(failure) => Err(failure),
                    Ok((size, size_end)) => {
                        let close = skip_space(chars, size_end);
                        if peek(chars, close, ']') {
                            let clause = make(Rule::ArraySize, chars, semi, size_end, single(size));
                            Ok((make(Rule::Array, chars, pos, close + 1, with(parts, clause)), close + 1))
                        } else {
                            Err(failed(close, Expected::Symbol(']')))
                        }
                    },
                }
            } else if peek(chars, semi, ']') {
                Ok((make(Rule::Array, chars, pos, semi + 1, parts), semi + 1))
            } else {
                Err(failed(semi, Expected::Symbol(']')))
            }
        },
    }
}

/// `type`: its nodes behind `acc`.
fn type_expr(chars: &Vec<char>, pos: usize, acc: Vec<Node>) -> (res: Result<
    (Vec<Node>, usize),
    Failure,
>)
    requires
        pos <= chars.len(),
    ensures
        nodes_step(res) == spec_type(chars@, pos as int, forest(acc@)),
        res matches Ok(done) ==> pos < done.1 <= chars.len(),
        res matches Err(failure) ==> failure.offset <= chars.len(),
{
    let inner = if peek(chars, pos, '[') {
        match array(chars, pos) {
            Err(failure) => Err(failure),
            Ok((node, end)) => Ok((with(acc, node), end)),
        }
    } else {
        type_ref(chars, pos, acc)
    };
    match inner {
        Err(failure) => Err(failure),
        Ok((parts, end)) => {
            let mark = skip_space(chars, end);
            if peek(chars, mark, '?') {
                Ok((with(parts, make_leaf(Rule::Optional, chars, mark, mark + 1)), mark + 1))
            } else {
                Ok((parts, end))
            }
        },
    }
}

/// `var`
fn var(chars: &Vec<char>, pos: usize) -> (res: Result<(Node, usize), Failure>)
    requires
        pos <= chars.len(),
    ensures
        node_step(res) == spec_var(chars@, pos as int),
        res matches Ok(done) ==> pos < done.1 <= chars.len(),
        res matches Err(failure) ==> failure.offset <= chars.len(),
{
    match name(chars, pos, Rule::Name) {
        Err(failure) => Err(failure),
        Ok((ident, name_end)) => {
            let colon = skip_space(chars, name_end);
            if !peek(chars, colon, ':') {
                return Err(failed(colon, Expected::Symbol(':')));
            }
            match type_expr(chars, skip_space(chars, colon + 1), single(ident)) {
                Err(failure) => Err(failure),
                Ok((parts, end)) => {
                    let assign = skip_space(chars, end);
                    if peek(chars, assign, '=') {
                        match value(
                            chars,
                            skip_space(chars, assign + 1),
                            Rule::StringLit,
                            CharClass::QuotedLine,
                        ) {
                            Err(failure) => Err(failure),
                            Ok((literal, value_end)) => {
                                let default = make(
                                    Rule::DefaultVal,
                                    chars,
                                    assign,
                                    value_end,
                                    single(literal),
                                );
                                Ok(
                                    (
                                        make(Rule::Var, chars, pos, value_end, with(parts, default)),
                                        value_end,
                                    ),
                                )
                            },
                        }
                    } else {
                        Ok((make(Rule::Var, chars, pos, end, parts), end))
                    }
                },
            }
        },
    }
}

/// The variables of `varlist` from `pos` on, and the closing parenthesis.
fn vars(chars: &Vec<char>, pos: usize) -> (res: Result<(Vec<Node>, usize), Failure>)
    requires
        pos <= chars.len(),
    ensures
        nodes_step(res) == spec_vars(chars@, pos as int, Seq::empty()),
        res matches Ok(done) ==> pos < done.1 <= chars.len(),
        res matches Err(failure) ==> failure.offset <= chars.len(),
{
    let mut list = none();
    let mut cur = pos;
    loop
        invariant
            pos <= cur <= chars.len(),
            spec_vars(chars@, cur as int, forest(list@)) == spec_vars(
                chars@,
                pos as int,
                Seq::empty(),
            ),
        decreases chars.len() - cur,
    {
        match var(chars, cur) {
            Err(failure) => {
                return Err(failure);
            },
            Ok((node, end)) => {
                list = with(list, node);
                let comma = skip_space(chars, end);
                if peek(chars, comma, ',') {
                    cur = skip_space(chars, comma + 1);
                } else if peek(chars, comma, ')') {
                    return Ok((list, comma + 1));
                } else {
                    return Err(failed(comma, Expected::Symbol(')')));
                }
            },
        }
    }
}

/// `varlist`
fn varlist(chars: &Vec<char>, pos: usize) -> (res: Result<(Node, usize), Failure>)
    requires
        pos <= chars.len(),
    ensures
        node_step(res) == spec_varlist(chars@, pos as int),
        res matches Ok(done) ==> pos < done.1 <= chars.len(),
        res matches Err(failure) ==> failure.offset <= chars.len(),
{
    if !peek(chars, pos, '(') {
        return Err(failed(pos, Expected::Symbol('(')));
    }
    let first = skip_space(chars, pos + 1);
    if peek(chars, first, ')') {
        Ok((make(Rule::Varlist, chars, pos, first + 1, none()), first + 1))
    } else {
        match vars(chars, first) {
            Err(failure) => Err(failure),
            Ok((list, end)) => Ok((make(Rule::Varlist, chars, pos, end, list), end)),
        }
    }
}

/// The rule of the marker that `w` names.
fn marker_of(w: &String) -> (rule: Option<Rule>)
    ensures
        rule == marker_rule(w@),
{
    if reads(w, "static") {
        Some(Rule::StaticTyp)
    } else if reads(w, "manual") {
        Some(Rule::ManualTyp)
    } else {
        None
    }
}

/// The markers of a function from `pos` on.
fn markers(chars: &Vec<char>, pos: usize) -> (res: Result<(Vec<Node>, usize), Failure>)
    requires
        pos <= chars.len(),
    ensures
        nodes_step(res) == spec_markers(chars@, pos as int, Seq::empty()),
        res matches Ok(done) ==> pos <= done.1 <= chars.len(),
        res matches Err(failure) ==> failure.offset <= chars.len(),
{
    let mut list = none();
    let mut cur = pos;
    while peek(chars, cur, '[')
        invariant
            pos <= cur <= chars.len(),
            spec_markers(chars@, cur as int, forest(list@)) == spec_markers(
                chars@,
                pos as int,
                Seq::empty(),
            ),
        decreases chars.len() - cur,
    {
        let key = skip_space(chars, cur + 1);
        let (w, key_end) = read_word(chars, key);
        let rule = match marker_of(&w) {
            None => {
                return Err(failed(key, Expected::MarkerName));
            },
            Some(rule) => rule,
        };
        let close = skip_space(chars, key_end);
        if !peek(chars, close, ']') {
            return Err(failed(close, Expected::Symbol(']')));
        }
        list = with(list, make_leaf(rule, chars, cur, close + 1));
        cur = skip_space(chars, close + 1);
    }
    Ok((list, cur))
}

/// `function`
fn function(chars: &Vec<char>, pos: usize) -> (res: Result<(Node, usize), Failure>)
    requires
        pos <= chars.len(),
    ensures
        node_step(res) == spec_function(chars@, pos as int),
        res matches Ok(done) ==> pos < done.1 <= chars.len(),
        res matches Err(failure) ==> failure.offset <= chars.len(),
{
    let (front, name_pos) = match markers(chars, pos) {
        Err(failure) => {
            return Err(failure);
        },
        Ok(done) => done,
    };
    let (ident, name_end) = match name(chars, name_pos, Rule::Name) {
        Err(failure) => {
            return Err(failure);
        },
        Ok(done) => done,
    };
    let (args, args_end) = match varlist(chars, skip_space(chars, name_end)) {
        Err(failure) => {
            return Err(failure);
        },
        Ok(done) => done,
    };
    let arrow = skip_space(chars, args_end);
    let parts = with(with(front, ident), args);
    if peek(chars, arrow, '-') && peek(chars, arrow + 1, '>') {
        match type_expr(chars, skip_space(chars, arrow + 2), none()) {
            Err(failure) => Err(failure),
            Ok((ret, end)) => {
                let retexp = make(Rule::RetExp, chars, arrow, end, ret);
                Ok((make(Rule::Function, chars, pos, end, with(parts, retexp)), end))
            },
        }
    } else {
        Ok((make(Rule::Function, chars, pos, args_end, parts), args_end))
    }
}

/// `enum_entry`
fn enum_entry(chars: &Vec<char>, pos: usize) -> (res: Result<(Node, usize), Failure>)
    requires
        pos <= chars.len(),
    ensures
        node_step(res) == spec_enum_entry(chars@, pos as int),
        res matches Ok(done) ==> pos < done.1 <= chars.len(),
        res matches Err(failure) ==> failure.offset <= chars.len(),
{
    match name(chars, pos, Rule::Name) {
        Err(failure) => Err(failure),
        Ok((ident, name_end)) => {
            let assign = skip_space(chars, name_end);
            if peek(chars, assign, '=') {
                match name_or_num(chars, skip_space(chars, assign + 1)) {
                    Err(failure) => Err(failure),
                    Ok((number, end)) => {
                        let clause = make(Rule::EnumAssign, chars, assign, end, single(number));
                        Ok((make(Rule::EnumEntry, chars, pos, end, pair(ident, clause)), end))
                    },
                }
            } else {
                Ok((make(Rule::EnumEntry, chars, pos, name_end, single(ident)), name_end))
            }
        },
    }
}

/// A node of `rule` from `start` on around what `inner` gave.
fn wrapped(chars: &Vec<char>, start: usize, rule: Rule, inner: Result<(Node, usize), Failure>) -> (res:
    Result<(Node, usize), Failure>)
    requires
        inner matches Ok(done) ==> start <= done.1 <= chars.len(),
    ensures
        node_step(res) == wrap(chars@, start as int, rule, node_step(inner)),
        res matches Ok(done) ==> inner matches Ok(before) && done.1 == before.1,
        res matches Err(failure) ==> inner matches Err(before) && failure.offset == before.offset,
{
    match inner {
        Err(failure) => Err(failure),
        Ok((node, end)) => Ok((make(rule, chars, start, end, single(node)), end)),
    }
}

/// `field`
fn field(chars: &Vec<char>, pos: usize) -> (res: Result<(Node, usize), Failure>)
    requires
        pos <= chars.len(),
    ensures
        node_step(res) == spec_field(chars@, pos as int),
        res matches Ok(done) ==> pos < done.1 <= chars.len(),
        res matches Err(failure) ==> failure.offset <= chars.len(),
{
    let member = if peek(chars, pos, '[') {
        function(chars, pos)
    } else if !(pos < chars.len() && name_start(chars[pos])) {
        Err(failed(pos, Expected::Field))
    } else {
        let next = skip_space(chars, scan(chars, pos, CharClass::Word));
        if peek(chars, next, '(') {
            function(chars, pos)
        } else if peek(chars, next, ':') {
            var(chars, pos)
        } else {
            enum_entry(chars, pos)
        }
    };
    wrapped(chars, pos, Rule::Field, member)
}

/// The members of `fieldlist` from `pos` on, and the closing brace.
fn fields(chars: &Vec<char>, pos: usize) -> (res: Result<(Vec<Node>, usize), Failure>)
    requires
        pos <= chars.len(),
    ensures
        nodes_step(res) == spec_fields(chars@, pos as int, Seq::empty()),
        res matches Ok(done) ==> pos < done.1 <= chars.len(),
        res matches Err(failure) ==> failure.offset <= chars.len(),
{
    let mut list = none();
    let mut cur = pos;
    loop
        invariant
            pos <= cur <= chars.len(),
            spec_fields(chars@, cur as int, forest(list@)) == spec_fields(
                chars@,
                pos as int,
                Seq::empty(),
            ),
        decreases chars.len() - cur,
    {
        if peek(chars, cur, '}') {
            return Ok((list, cur + 1));
        } else if peek_doc(chars, cur) {
            let end = scan(chars, cur, CharClass::Line);
            list = with(list, make_leaf(Rule::DocComment, chars, cur, end));
            cur = skip_space(chars, end);
        } else {
            match field(chars, cur) {
                Err(failure) => {
                    return Err(failure);
                },
                Ok((node, end)) => {
                    list = with(list, node);
                    let comma = skip_space(chars, end);
                    if peek(chars, comma, ',') {
                        cur = skip_space(chars, comma + 1);
                    } else {
                        cur = comma;
                    }
                },
            }
        }
    }
}

/// `fieldlist`
fn fieldlist(chars: &Vec<char>, pos: usize) -> (res: Result<(Node, usize), Failure>)
    requires
        pos <= chars.len(),
    ensures
        node_step(res) == spec_fieldlist(chars@, pos as int),
        res matches Ok(done) ==> pos < done.1 <= chars.len(),
        res matches Err(failure) ==> failure.offset <= chars.len(),
{
    if !peek(chars, pos, '{') {
        return Err(failed(pos, Expected::Symbol('{')));
    }
    match fields(chars, skip_space(chars, pos + 1)) {
        Err(failure) => Err(failure),
        Ok((members, end)) => Ok((make(Rule::Fieldlist, chars, pos, end, members), end)),
    }
}

/// A name and a field list behind the keyword that ends at `pos`.
fn record(chars: &Vec<char>, start: usize, pos: usize, rule: Rule, front: Vec<Node>) -> (res: Result<
    (Node, usize),
    Failure,
>)
    requires
        start <= pos <= chars.len(),
    ensures
        node_step(res) == spec_record(chars@, start as int, pos as int, rule, forest(front@)),
        res matches Ok(done) ==> pos < done.1 <= chars.len(),
        res matches Err(failure) ==> failure.offset <= chars.len(),
{
    match name(chars, skip_space(chars, pos), Rule::Name) {
        Err(failure) => Err(failure),
        Ok((ident, name_end)) => match fieldlist(chars, skip_space(chars, name_end)) {
            Err(failure) => Err(failure),
            Ok((members, end)) => Ok(
                (make(rule, chars, start, end, with(with(front, ident), members)), end),
            ),
        },
    }
}

/// `structdef`
fn structdef(chars: &Vec<char>, pos: usize) -> (res: Result<(Node, usize), Failure>)
    requires
        pos <= chars.len(),
    ensures
        node_step(res) == spec_struct(chars@, pos as int),
        res matches Ok(done) ==> pos < done.1 <= chars.len(),
        res matches Err(failure) ==> failure.offset <= chars.len(),
{
    match clauses(chars, pos) {
        Err(failure) => Err(failure),
        Ok((front, key)) => {
            let (w, key_end) = read_word(chars, key);
            if reads(&w, "struct") {
                record(chars, pos, key_end, Rule::StructDef, front)
            } else {
                Err(failed(key, Expected::StructKeyword))
            }
        },
    }
}

/// `enumdef`, behind its keyword that ends at `pos`.
fn enumdef(chars: &Vec<char>, start: usize, pos: usize) -> (res: Result<(Node, usize), Failure>)
    requires
        start <= pos <= chars.len(),
    ensures
        node_step(res) == spec_enum(chars@, start as int, pos as int),
        res matches Ok(done) ==> pos < done.1 <= chars.len(),
        res matches Err(failure) ==> failure.offset <= chars.len(),
{
    match record(chars, start, pos, Rule::EnumDef, none()) {
        Err(failure) => Err(failure),
        Ok((plain, end)) => {
            let key = skip_space(chars, end);
            let (w, key_end) = read_word(chars, key);
            if reads(&w, "flags") {
                match name(chars, skip_space(chars, key_end), Rule::Name) {
                    Err(failure) => Err(failure),
                    Ok((alias, alias_end)) => {
                        let clause = make(Rule::EnumFlags, chars, key, alias_end, single(alias));
                        Ok(
                            (
                                make(
                                    Rule::EnumDef,
                                    chars,
                                    start,
                                    alias_end,
                                    with(plain.children, clause),
                                ),
                                alias_end,
                            ),
                        )
                    },
                }
            } else {
                Ok((plain, end))
            }
        },
    }
}

/// `const_value`, behind its keyword that ends at `pos`.
fn constdef(chars: &Vec<char>, start: usize, pos: usize) -> (res: Result<(Node, usize), Failure>)
    requires
        start <= pos <= chars.len(),
    ensures
        node_step(res) == spec_const(chars@, start as int, pos as int),
        res matches Ok(done) ==> pos < done.1 <= chars.len(),
        res matches Err(failure) ==> failure.offset <= chars.len(),
{
    match name(chars, skip_space(chars, pos), Rule::Name) {
        Err(failure) => Err(failure),
        Ok((ident, name_end)) => {
            let assign = skip_space(chars, name_end);
            if !peek(chars, assign, '=') {
                return Err(failed(assign, Expected::Symbol('=')));
            }
            match value(chars, skip_space(chars, assign + 1), Rule::RawString, CharClass::Quoted) {
                Err(failure) => Err(failure),
                Ok((literal, end)) => Ok(
                    (make(Rule::ConstValue, chars, start, end, pair(ident, literal)), end),
                ),
            }
        },
    }
}

/// `chunk`
fn chunk(chars: &Vec<char>, pos: usize) -> (res: Result<(Node, usize), Failure>)
    requires
        pos <= chars.len(),
    ensures
        node_step(res) == spec_chunk(chars@, pos as int),
        res matches Ok(done) ==> pos < done.1 <= chars.len(),
        res matches Err(failure) ==> failure.offset <= chars.len(),
{
    if peek_doc(chars, pos) {
        let end = scan(chars, pos, CharClass::Line);
        return Ok((make_leaf(Rule::DocComment, chars, pos, end), end));
    }
    let (w, after) = read_word(chars, pos);
    if peek(chars, pos, '#') || reads(&w, "struct") {
        structdef(chars, pos)
    } else if reads(&w, "union") {
        record(chars, pos, after, Rule::UnionDef, none())
    } else if reads(&w, "enum") {
        enumdef(chars, pos, after)
    } else if reads(&w, "callback") {
        wrapped(chars, pos, Rule::CallbackDef, function(chars, skip_space(chars, after)))
    } else if reads(&w, "mod") {
        wrapped(chars, pos, Rule::ModDef, name(chars, skip_space(chars, after), Rule::Name))
    } else if reads(&w, "type") {
        wrapped(chars, pos, Rule::TypeValue, var(chars, skip_space(chars, after)))
    } else if reads(&w, "const") {
        constdef(chars, pos, after)
    } else {
        Err(failed(pos, Expected::Declaration))
    }
}

/// The chunks of `chars`, or the place where the text leaves the grammar.
pub fn parse(chars: &Vec<char>) -> (res: Result<Vec<Node>, Failure>)
    ensures
        match spec_file(chars@) {
            Step::Done(trees, end) => res matches Ok(nodes) && forest(nodes@) == trees,
            Step::Failed(offset, expected) => res matches Err(failure) && failure.offset == offset
                && failure.expected == expected,
        },
        res matches Err(failure) ==> failure.offset <= chars.len(),
{
    let mut list = none();
    let mut cur = skip_space(chars, 0);
    while cur < chars.len()
        invariant
            cur <= chars.len(),
            spec_chunks(chars@, cur as int, forest(list@)) == spec_file(chars@),
        decreases chars.len() - cur,
    {
        match chunk(chars, cur) {
            Err(failure) => {
                return Err(failure);
            },
            Ok((node, end)) => {
                list = with(list, node);
                cur = skip_space(chars, end);
            },
        }
    }
    Ok(list)
}

} // verus!
