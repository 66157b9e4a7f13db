//! From the nodes of declarations to structs, unions, callbacks and enums.

use vstd::prelude::*;
use crate::api_parser::ApiParser;
use crate::enums::{
    all_assigned, assigned_value, first_unassignable, lemma_assigned_nonnegative,
    lemma_first_unassignable, values_of, UNASSIGNED,
};
use crate::error::{ApigenError, ApigenErrorView};
use crate::model::{
    EnumEntry, EnumEntryView, Function, FunctionView, Struct, StructView, Variable, VariableView,
};
use crate::resolver::{
    first_text, first_text_of, last_of, lemma_last_of, lemma_static_function, no_receiver,
    spec_function_of, spec_static_function_of, spec_variable,
};
use crate::text::{
    clone_lines, no_lines, parse_u64, push_line, spec_parse_u64, spec_strip_marker, strip_marker,
};
use crate::tree::{lemma_children, Node, Rule, Tree};

verus! {

/// `list` with `item` behind it.
pub fn push_deep<T: DeepView>(list: &mut Vec<T>, item: T)
    ensures
        final(list).deep_view() == old(list).deep_view().push(item.deep_view()),
{
    list.push(item);
    assert(list.deep_view() =~= old(list).deep_view().push(item.deep_view()));
}

/// The texts of `children` from `i` on, behind `acc`.
pub open spec fn texts_from(children: Seq<Tree>, i: int, acc: Seq<Seq<char>>) -> Seq<Seq<char>>
    decreases children.len() - i,
{
    if i < 0 || i >= children.len() {
        acc
    } else {
        texts_from(children, i + 1, acc.push(children[i].text))
    }
}

/// The names that a name list holds: the texts of its children.
pub open spec fn spec_namelist(node: Tree) -> Seq<Seq<char>> {
    texts_from(node.children, 0, Seq::empty())
}

/// The names of the last name list among `children` from `i` on; `found` where there
/// is none.
pub open spec fn scan_attributes(children: Seq<Tree>, i: int, found: Seq<Seq<char>>) -> Seq<
    Seq<char>,
>
    decreases children.len() - i,
{
    if i < 0 || i >= children.len() {
        found
    } else if children[i].rule == Rule::Namelist {
        scan_attributes(children, i + 1, spec_namelist(children[i]))
    } else {
        scan_attributes(children, i + 1, found)
    }
}

/// The names that a clause holds.
pub open spec fn spec_attributes(node: Tree) -> Seq<Seq<char>> {
    scan_attributes(node.children, 0, Seq::empty())
}

/// What the scan of a field list has found so far.
pub struct FieldScan {
    pub variables: Seq<VariableView>,
    pub functions: Seq<FunctionView>,
    /// The documentation that waits for the next member.
    pub docs: Seq<Seq<char>>,
}

/// `docs` with the line of the documentation comment `comment` behind them; `docs`
/// where the comment is shorter than its marker.
pub open spec fn with_doc(docs: Seq<Seq<char>>, comment: Seq<char>) -> Seq<Seq<char>> {
    match spec_strip_marker(comment) {
        Some(line) => docs.push(line),
        None => docs,
    }
}

/// One step of the scan of a field list: a documentation comment waits for the next
/// member; a field that holds a variable or a function adds it, with the documentation
/// that waited.
pub open spec fn field_step(scan: FieldScan, child: Tree) -> FieldScan {
    if child.rule == Rule::DocComment {
        FieldScan { docs: with_doc(scan.docs, child.text), ..scan }
    } else if child.rule == Rule::Field && child.children.len() > 0 && child.children[0].rule
        == Rule::Var {
        FieldScan {
            variables: scan.variables.push(spec_variable(child.children[0], scan.docs)),
            docs: Seq::empty(),
            ..scan
        }
    } else if child.rule == Rule::Field && child.children.len() > 0 && child.children[0].rule
        == Rule::Function {
        FieldScan {
            functions: scan.functions.push(spec_function_of(child.children[0], scan.docs)),
            docs: Seq::empty(),
            ..scan
        }
    } else {
        scan
    }
}

/// The scan of the children of a field list from `i` on.
pub open spec fn scan_fields(children: Seq<Tree>, i: int, scan: FieldScan) -> FieldScan
    decreases children.len() - i,
{
    if i < 0 || i >= children.len() {
        scan
    } else {
        scan_fields(children, i + 1, field_step(scan, children[i]))
    }
}

/// The variables and the functions that a field list holds.
pub open spec fn spec_field_list(node: Tree) -> (Seq<VariableView>, Seq<FunctionView>) {
    let scan = scan_fields(
        node.children,
        0,
        FieldScan { variables: Seq::empty(), functions: Seq::empty(), docs: Seq::empty() },
    );
    (scan.variables, scan.functions)
}

/// Whether `child` is a field that holds a node of `rule` as its first child.
pub open spec fn holds(child: Tree, rule: Rule) -> bool {
    child.rule == Rule::Field && child.children.len() > 0 && child.children[0].rule == rule
}

/// Whether `child` is a member that takes the waiting documentation: in the field list
/// of an enum an entry, in any other a variable or a function.
pub open spec fn is_member(child: Tree, of_enum: bool) -> bool {
    if of_enum {
        holds(child, Rule::EnumEntry)
    } else {
        holds(child, Rule::Var) || holds(child, Rule::Function)
    }
}

/// The documentation that waits behind the first `n` children of a field list: the
/// lines of the documentation comments that stand behind the last member among them.
pub open spec fn member_docs(children: Seq<Tree>, n: int, of_enum: bool) -> Seq<Seq<char>>
    decreases n,
{
    if n <= 0 || n > children.len() {
        Seq::empty()
    } else if children[n - 1].rule == Rule::DocComment {
        with_doc(member_docs(children, n - 1, of_enum), children[n - 1].text)
    } else if is_member(children[n - 1], of_enum) {
        Seq::empty()
    } else {
        member_docs(children, n - 1, of_enum)
    }
}

/// The variables among the first `n` children of a field list, in their order, each
/// with the documentation that waited for it.
pub open spec fn variables_upto(children: Seq<Tree>, n: int) -> Seq<VariableView>
    decreases n,
{
    if n <= 0 || n > children.len() {
        Seq::empty()
    } else if holds(children[n - 1], Rule::Var) {
        variables_upto(children, n - 1).push(
            spec_variable(children[n - 1].children[0], member_docs(children, n - 1, false)),
        )
    } else {
        variables_upto(children, n - 1)
    }
}

/// The functions among the first `n` children of a field list, in their order, each
/// with the documentation that waited for it.
pub open spec fn functions_upto(children: Seq<Tree>, n: int) -> Seq<FunctionView>
    decreases n,
{
    if n <= 0 || n > children.len() {
        Seq::empty()
    } else if holds(children[n - 1], Rule::Function) {
        functions_upto(children, n - 1).push(
            spec_function_of(children[n - 1].children[0], member_docs(children, n - 1, false)),
        )
    } else {
        functions_upto(children, n - 1)
    }
}

/// The scan of a field list ends with every member in its place.
proof fn lemma_scan_fields_order(children: Seq<Tree>, i: int, scan: FieldScan)
    requires
        0 <= i <= children.len(),
        scan.docs == member_docs(children, i, false),
        scan.variables == variables_upto(children, i),
        scan.functions == functions_upto(children, i),
    ensures
        scan_fields(children, i, scan).variables == variables_upto(
            children,
            children.len() as int,
        ),
        scan_fields(children, i, scan).functions == functions_upto(
            children,
            children.len() as int,
        ),
    decreases children.len() - i,
{
    if i < children.len() {
        lemma_scan_fields_order(children, i + 1, field_step(scan, children[i]));
    }
}

/// The variables and the functions of a field list stand in the order of its fields,
/// and the documentation of each is made of the documentation comments that stand
/// between it and the member before it.
pub proof fn lemma_members_in_order(node: Tree)
    ensures
        spec_field_list(node) == (
            variables_upto(node.children, node.children.len() as int),
            functions_upto(node.children, node.children.len() as int),
        ),
{
    lemma_scan_fields_order(
        node.children,
        0,
        FieldScan { variables: Seq::empty(), functions: Seq::empty(), docs: Seq::empty() },
    );
}

/// One step of the scan of a struct's node: a name sets the name; a clause sets the
/// attributes, the derives or the traits; a field list sets fields and methods.
pub open spec fn struct_step(scan: StructView, child: Tree) -> StructView {
    match child.rule {
        Rule::Name => StructView { name: child.text, ..scan },
        Rule::Attributes => StructView { attributes: spec_attributes(child), ..scan },
        Rule::Derive => StructView { derives: spec_attributes(child), ..scan },
        Rule::Traits => StructView { traits: spec_attributes(child), ..scan },
        Rule::Fieldlist => StructView {
            variables: spec_field_list(child).0,
            functions: spec_field_list(child).1,
            ..scan
        },
        _ => scan,
    }
}

/// The scan of the children of a struct's node from `i` on.
pub open spec fn scan_struct(children: Seq<Tree>, i: int, scan: StructView) -> StructView
    decreases children.len() - i,
{
    if i < 0 || i >= children.len() {
        scan
    } else {
        scan_struct(children, i + 1, struct_step(scan, children[i]))
    }
}

/// The struct or union that a node states.
pub open spec fn spec_struct_of(node: Tree, docs: Seq<Seq<char>>, def_file: Seq<char>) -> StructView {
    scan_struct(
        node.children,
        0,
        StructView { doc_comments: docs, def_file, ..StructView::empty() },
    )
}

/// The function of the last function node among `children` from `i` on; `found`
/// where there is none.
pub open spec fn scan_callback(children: Seq<Tree>, i: int, docs: Seq<Seq<char>>, found: FunctionView) -> FunctionView
    decreases children.len() - i,
{
    if i < 0 || i >= children.len() {
        found
    } else if children[i].rule == Rule::Function {
        scan_callback(children, i + 1, docs, spec_static_function_of(children[i], docs))
    } else {
        scan_callback(children, i + 1, docs, found)
    }
}

/// The function that a callback's node states: that of its last function node, taken
/// as a function without an owning type, which never has the receiver.
pub open spec fn spec_callback(node: Tree, docs: Seq<Seq<char>>) -> FunctionView {
    scan_callback(node.children, 0, docs, FunctionView::empty())
}

/// The scan of a callback's node ends with the function of its last function node.
proof fn lemma_scan_callback(children: Seq<Tree>, i: int, docs: Seq<Seq<char>>, found: FunctionView)
    requires
        0 <= i <= children.len(),
        found == (if last_of(children, i, Rule::Function) < 0 {
            FunctionView::empty()
        } else {
            spec_static_function_of(children[last_of(children, i, Rule::Function)], docs)
        }),
    ensures
        scan_callback(children, i, docs, found) == (if last_of(
            children,
            children.len() as int,
            Rule::Function,
        ) < 0 {
            FunctionView::empty()
        } else {
            spec_static_function_of(
                children[last_of(children, children.len() as int, Rule::Function)],
                docs,
            )
        }),
    decreases children.len() - i,
{
    if i < children.len() {
        let next = if children[i].rule == Rule::Function {
            spec_static_function_of(children[i], docs)
        } else {
            found
        };
        lemma_scan_callback(children, i + 1, docs, next);
    }
}

/// A callback is the function of its last function node, resolved without an owning
/// type: its arguments are the declared parameters and nothing else, so none of them
/// is the receiver. A callback without a function node has no arguments.
pub proof fn lemma_callback(node: Tree, docs: Seq<Seq<char>>)
    ensures
        ({
            let at = last_of(node.children, node.children.len() as int, Rule::Function);
            &&& at < 0 ==> spec_callback(node, docs) == FunctionView::empty()
            &&& at >= 0 ==> spec_callback(node, docs) == spec_static_function_of(
                node.children[at],
                docs,
            )
        }),
        no_receiver(spec_callback(node, docs).function_args),
{
    lemma_scan_callback(node.children, 0, docs, FunctionView::empty());
    let at = last_of(node.children, node.children.len() as int, Rule::Function);
    if at >= 0 {
        lemma_last_of(node.children, node.children.len() as int, Rule::Function);
        lemma_static_function(node.children[at], docs);
    }
}

/// The text of the value that the node of an enum entry's assignment holds.
pub open spec fn spec_enum_assign(node: Tree) -> Seq<char> {
    first_text_of(node.children, 0, Rule::NameOrNum, Rule::NameOrNum)
}

/// What the scan of an enum entry's node has found so far.
pub struct EntryScan {
    pub name: Seq<char>,
    pub value: u64,
    /// Whether a value was written that is no unsigned 64-bit number.
    pub bad: bool,
}

/// One step of the scan of an enum entry's node: a name sets the name; an assignment
/// sets the value to the number it writes.
pub open spec fn entry_step(scan: EntryScan, child: Tree) -> EntryScan {
    if child.rule == Rule::Name {
        EntryScan { name: child.text, ..scan }
    } else if child.rule == Rule::EnumAssign {
        match spec_parse_u64(spec_enum_assign(child)) {
            Some(value) => EntryScan { value, ..scan },
            None => EntryScan { bad: true, ..scan },
        }
    } else {
        scan
    }
}

/// The scan of the children of an enum entry's node from `i` on.
pub open spec fn scan_entry(children: Seq<Tree>, i: int, scan: EntryScan) -> EntryScan
    decreases children.len() - i,
{
    if i < 0 || i >= children.len() {
        scan
    } else {
        scan_entry(children, i + 1, entry_step(scan, children[i]))
    }
}

/// The entry that a node states, as written: without a value of its own it holds
/// [`UNASSIGNED`]. An error where a value is written that is no unsigned 64-bit number.
pub open spec fn spec_enum_entry_of(node: Tree, docs: Seq<Seq<char>>) -> Result<
    EnumEntryView,
    ApigenErrorView,
> {
    let scan = scan_entry(
        node.children,
        0,
        EntryScan { name: Seq::empty(), value: UNASSIGNED, bad: false },
    );
    if scan.bad {
        Err(ApigenErrorView::MissingRequiredField { enum_name: Seq::empty(), entry: scan.name })
    } else {
        Ok(EnumEntryView { doc_comments: docs, name: scan.name, value: scan.value })
    }
}

/// What the scan of an enum's field list has found so far.
pub struct EntriesScan {
    pub entries: Seq<EnumEntryView>,
    /// The documentation that waits for the next entry.
    pub docs: Seq<Seq<char>>,
    /// The first error.
    pub error: Option<ApigenErrorView>,
}

/// One step of the scan of an enum's field list: nothing behind an error; a
/// documentation comment waits for the next entry; a field that holds an entry adds
/// it, with the documentation that waited.
pub open spec fn entries_step(scan: EntriesScan, child: Tree) -> EntriesScan {
    if scan.error is Some {
        scan
    } else if child.rule == Rule::DocComment {
        EntriesScan { docs: with_doc(scan.docs, child.text), ..scan }
    } else if child.rule == Rule::Field && child.children.len() > 0 && child.children[0].rule
        == Rule::EnumEntry {
        match spec_enum_entry_of(child.children[0], scan.docs) {
            Ok(entry) => EntriesScan {
                entries: scan.entries.push(entry),
                docs: Seq::empty(),
                ..scan
            },
            Err(error) => EntriesScan { error: Some(error), ..scan },
        }
    } else {
        scan
    }
}

/// The scan of the children of an enum's field list from `i` on.
pub open spec fn scan_entries(children: Seq<Tree>, i: int, scan: EntriesScan) -> EntriesScan
    decreases children.len() - i,
{
    if i < 0 || i >= children.len() {
        scan
    } else {
        scan_entries(children, i + 1, entries_step(scan, children[i]))
    }
}

/// The values of `entries`, in order.
pub open spec fn entry_values(entries: Seq<EnumEntryView>) -> Seq<u64> {
    Seq::new(entries.len(), |i: int| entries[i].value)
}

/// `entries` with the value of each as [`assigned_value`] gives it.
pub open spec fn with_values(entries: Seq<EnumEntryView>) -> Seq<EnumEntryView> {
    Seq::new(
        entries.len(),
        |i: int|
            EnumEntryView {
                value: assigned_value(entry_values(entries), i) as u64,
                ..entries[i]
            },
    )
}

/// The entries that an enum's field list holds, each with its value. An error for the
/// first entry whose value is no number, or else for the first that cannot get one.
pub open spec fn spec_field_list_enum(node: Tree) -> Result<Seq<EnumEntryView>, ApigenErrorView> {
    let scan = scan_entries(
        node.children,
        0,
        EntriesScan { entries: Seq::empty(), docs: Seq::empty(), error: None },
    );
    let stuck = first_unassignable(entry_values(scan.entries), 0);
    if scan.error is Some {
        Err(scan.error->0)
    } else if stuck < scan.entries.len() {
        Err(
            ApigenErrorView::MissingRequiredField {
                enum_name: Seq::empty(),
                entry: scan.entries[stuck].name,
            },
        )
    } else {
        Ok(with_values(scan.entries))
    }
}

/// The entries among the first `n` children of an enum's field list whose value is
/// written well, in their order and as written, each with the documentation that
/// waited for it.
pub open spec fn entries_upto(children: Seq<Tree>, n: int) -> Seq<EnumEntryView>
    decreases n,
{
    if n <= 0 || n > children.len() {
        Seq::empty()
    } else if holds(children[n - 1], Rule::EnumEntry) {
        match spec_enum_entry_of(children[n - 1].children[0], member_docs(children, n - 1, true)) {
            Ok(entry) => entries_upto(children, n - 1).push(entry),
            Err(_) => entries_upto(children, n - 1),
        }
    } else {
        entries_upto(children, n - 1)
    }
}

/// A scan of an enum's field list that ends without an error has every entry in its
/// place.
proof fn lemma_scan_entries_order(children: Seq<Tree>, i: int, scan: EntriesScan)
    requires
        0 <= i <= children.len(),
        scan.error is None,
        scan.docs == member_docs(children, i, true),
        scan.entries == entries_upto(children, i),
    ensures
        scan_entries(children, i, scan).error is None ==> scan_entries(children, i, scan).entries
            == entries_upto(children, children.len() as int),
    decreases children.len() - i,
{
    if i < children.len() {
        let next = entries_step(scan, children[i]);
        if next.error is Some {
            lemma_entries_error_stays(children, i + 1, next);
        } else {
            lemma_scan_entries_order(children, i + 1, next);
        }
    }
}

/// The entries of an enum stand in the order of their fields, each with its value, and
/// the documentation of each is made of the documentation comments that stand between
/// it and the entry before it.
pub proof fn lemma_entries_in_order(node: Tree)
    ensures
        spec_field_list_enum(node) matches Ok(entries) ==> entries == with_values(
            entries_upto(node.children, node.children.len() as int),
        ),
{
    lemma_scan_entries_order(
        node.children,
        0,
        EntriesScan { entries: Seq::empty(), docs: Seq::empty(), error: None },
    );
}

/// Whether `error`, if there is one, says that an entry of an enum cannot get a value.
pub open spec fn is_missing_value(error: Option<ApigenErrorView>) -> bool {
    error matches Some(inner) ==> inner is MissingRequiredField
}

/// The scan of an enum's field list fails only for an entry that cannot get a value.
proof fn lemma_scan_entries_errors(children: Seq<Tree>, i: int, scan: EntriesScan)
    requires
        is_missing_value(scan.error),
    ensures
        is_missing_value(scan_entries(children, i, scan).error),
    decreases children.len() - i,
{
    if 0 <= i < children.len() {
        lemma_scan_entries_errors(children, i + 1, entries_step(scan, children[i]));
    }
}

/// The entries of an enum fail only for an entry that cannot get a value.
pub proof fn lemma_entries_errors(node: Tree)
    ensures
        spec_field_list_enum(node) matches Err(error) ==> error is MissingRequiredField,
{
    lemma_scan_entries_errors(
        node.children,
        0,
        EntriesScan { entries: Seq::empty(), docs: Seq::empty(), error: None },
    );
}

/// The entries that a field list gives all have a value: none is left unassigned.
pub proof fn lemma_entries_assigned(node: Tree)
    ensures
        spec_field_list_enum(node) matches Ok(entries) ==> all_assigned(entry_values(entries)),
{
    let scan = scan_entries(
        node.children,
        0,
        EntriesScan { entries: Seq::empty(), docs: Seq::empty(), error: None },
    );
    let raw = entry_values(scan.entries);
    lemma_first_unassignable(raw, 0);
    if let Ok(entries) = spec_field_list_enum(node) {
        assert forall|i: int| 0 <= i < entries.len() implies #[trigger] entry_values(entries)[i]
            != UNASSIGNED by {
            lemma_assigned_nonnegative(raw, i);
            assert(entries[i].value == assigned_value(raw, i) as u64);
        }
    }
}

/// Behind an error the scan of an enum's field list changes nothing.
pub proof fn lemma_entries_error_stays(children: Seq<Tree>, i: int, scan: EntriesScan)
    requires
        scan.error is Some,
    ensures
        scan_entries(children, i, scan) == scan,
    decreases children.len() - i,
{
    if 0 <= i < children.len() {
        lemma_entries_error_stays(children, i + 1, scan);
    }
}

/// The view of a result.
pub open spec fn result_view<T: DeepView>(res: Result<T, ApigenError>) -> Result<
    T::V,
    ApigenErrorView,
> {
    match res {
        Ok(value) => Ok(value.deep_view()),
        Err(error) => Err(error@),
    }
}

/// Adds the line of the documentation comment `comment` to `docs`, unless the comment
/// is shorter than its marker.
fn push_doc(docs: &mut Vec<String>, comment: &String)
    ensures
        final(docs).deep_view() == with_doc(old(docs).deep_view(), comment@),
{
    match strip_marker(comment.as_str()) {
        Some(line) => {
            push_line(docs, line);
        },
        None => {},
    }
}

impl ApiParser {
    /// The names that the name list `node` holds.
    pub fn get_namelist_list(node: &Node) -> (names: Vec<String>)
        ensures
            names.deep_view() == spec_namelist(node@),
    {
        proof {
            lemma_children(node);
        }
        let mut names = no_lines();
        let n = node.children.len();
        let mut i: usize = 0;
        while i < n
            invariant
                i <= n,
                n == node.children@.len(),
                n == node@.children.len(),
                forall|k: int| 0 <= k < n ==> #[trigger] node@.children[k] == node.children@[k]@,
                texts_from(node@.children, i as int, names.deep_view()) == spec_namelist(node@),
            decreases n - i,
        {
            let child = &node.children[i];
            proof {
                lemma_children(child);
            }
            push_line(&mut names, child.text.clone());
            i += 1;
        }
        names
    }

    /// The names that the clause `node` holds: those of its last name list.
    pub fn get_attrbutes(node: &Node) -> (names: Vec<String>)
        ensures
            names.deep_view() == spec_attributes(node@),
    {
        proof {
            lemma_children(node);
        }
        let mut names = no_lines();
        let n = node.children.len();
        let mut i: usize = 0;
        while i < n
            invariant
                i <= n,
                n == node.children@.len(),
                n == node@.children.len(),
                forall|k: int| 0 <= k < n ==> #[trigger] node@.children[k] == node.children@[k]@,
                scan_attributes(node@.children, i as int, names.deep_view()) == spec_attributes(
                    node@,
                ),
            decreases n - i,
        {
            let child = &node.children[i];
            proof {
                lemma_children(child);
            }
            if child.rule == Rule::Namelist {
                names = Self::get_namelist_list(child);
            }
            i += 1;
        }
        names
    }

    /// The variables and the functions that the field list `node` holds, each with
    /// the documentation comments that stand before it.
    pub fn fill_field_list(node: &Node) -> (members: (Vec<Variable>, Vec<Function>))
        ensures
            (members.0.deep_view(), members.1.deep_view()) == spec_field_list(node@),
    {
        proof {
            lemma_children(node);
        }
        let mut var_entries: Vec<Variable> = Vec::new();
        let mut func_entries: Vec<Function> = Vec::new();
        let mut doc_comments = no_lines();
        assert(var_entries.deep_view() =~= Seq::<VariableView>::empty());
        assert(func_entries.deep_view() =~= Seq::<FunctionView>::empty());
        let n = node.children.len();
        let mut i: usize = 0;
        while i < n
            invariant
                i <= n,
                n == node.children@.len(),
                n == node@.children.len(),
                forall|k: int| 0 <= k < n ==> #[trigger] node@.children[k] == node.children@[k]@,
                scan_fields(
                    node@.children,
                    i as int,
                    FieldScan {
                        variables: var_entries.deep_view(),
                        functions: func_entries.deep_view(),
                        docs: doc_comments.deep_view(),
                    },
                ) == scan_fields(
                    node@.children,
                    0,
                    FieldScan {
                        variables: Seq::empty(),
                        functions: Seq::empty(),
                        docs: Seq::empty(),
                    },
                ),
            decreases n - i,
        {
            let entry = &node.children[i];
            proof {
                lemma_children(entry);
            }
            if entry.rule == Rule::DocComment {
                push_doc(&mut doc_comments, &entry.text);
            } else if entry.rule == Rule::Field && entry.children.len() > 0 {
                let field = &entry.children[0];
                proof {
                    lemma_children(field);
                }
                if field.rule == Rule::Var {
                    push_deep(&mut var_entries, Self::get_variable(field, &doc_comments));
                    doc_comments = no_lines();
                } else if field.rule == Rule::Function {
                    push_deep(&mut func_entries, Self::get_function(field, &doc_comments));
                    doc_comments = no_lines();
                }
            }
            i += 1;
        }
        (var_entries, func_entries)
    }

    /// The struct or union that `node` states, with `doc_comments` as its
    /// documentation and `def_file` as the file it comes from.
    pub fn fill_struct(node: &Node, doc_comments: &Vec<String>, def_file: &str) -> (sdef: Struct)
        ensures
            sdef@ == spec_struct_of(node@, doc_comments.deep_view(), def_file@),
    {
        proof {
            lemma_children(node);
        }
        let mut sdef = Struct::default();
        sdef.doc_comments = clone_lines(doc_comments);
        sdef.def_file = def_file.to_owned();
        let n = node.children.len();
        let mut i: usize = 0;
        while i < n
            invariant
                i <= n,
                n == node.children@.len(),
                n == node@.children.len(),
                forall|k: int| 0 <= k < n ==> #[trigger] node@.children[k] == node.children@[k]@,
                scan_struct(node@.children, i as int, sdef@) == spec_struct_of(
                    node@,
                    doc_comments.deep_view(),
                    def_file@,
                ),
            decreases n - i,
        {
            let entry = &node.children[i];
            proof {
                lemma_children(entry);
            }
            match entry.rule {
                Rule::Name => {
                    sdef.name = entry.text.clone();
                },
                Rule::Attributes => {
                    sdef.attributes = Self::get_attrbutes(entry);
                },
                Rule::Derive => {
                    sdef.derives = Self::get_attrbutes(entry);
                },
                Rule::Traits => {
                    sdef.traits = Self::get_attrbutes(entry);
                },
                Rule::Fieldlist => {
                    let (var_entries, func_entries) = Self::fill_field_list(entry);
                    sdef.variables = var_entries;
                    sdef.functions = func_entries;
                },
                _ => {},
            }
            i += 1;
        }
        sdef
    }

    /// The function that the callback `node` states: that of its last function node,
    /// resolved without an owning type, so that it never has the receiver.
    pub fn fill_callback(node: &Node, doc_comments: &Vec<String>) -> (func: Function)
        ensures
            func@ == spec_callback(node@, doc_comments.deep_view()),
    {
        proof {
            lemma_children(node);
        }
        let mut func = Function::default();
        let n = node.children.len();
        let mut i: usize = 0;
        while i < n
            invariant
                i <= n,
                n == node.children@.len(),
                n == node@.children.len(),
                forall|k: int| 0 <= k < n ==> #[trigger] node@.children[k] == node.children@[k]@,
                scan_callback(node@.children, i as int, doc_comments.deep_view(), func@)
                    == spec_callback(node@, doc_comments.deep_view()),
            decreases n - i,
        {
            let entry = &node.children[i];
            proof {
                lemma_children(entry);
            }
            if entry.rule == Rule::Function {
                func = Self::get_static_function(entry, doc_comments);
            }
            i += 1;
        }
        func
    }

    /// The text of the value that the assignment `node` of an enum entry holds.
    pub fn get_enum_assign(node: &Node) -> (text: String)
        ensures
            text@ == spec_enum_assign(node@),
    {
        first_text(node, Rule::NameOrNum, Rule::NameOrNum)
    }

    /// The entry that `node` states, as written, with `doc_comments` as its
    /// documentation.
    pub fn get_enum(doc_comments: &Vec<String>, node: &Node) -> (res: Result<EnumEntry, ApigenError>)
        ensures
            result_view(res) == spec_enum_entry_of(node@, doc_comments.deep_view()),
    {
        proof {
            lemma_children(node);
        }
        let mut name = String::new();
        let mut value: u64 = UNASSIGNED;
        let mut bad = false;
        let n = node.children.len();
        let mut i: usize = 0;
        while i < n
            invariant
                i <= n,
                n == node.children@.len(),
                n == node@.children.len(),
                forall|k: int| 0 <= k < n ==> #[trigger] node@.children[k] == node.children@[k]@,
                scan_entry(node@.children, i as int, EntryScan { name: name@, value, bad })
                    == scan_entry(
                    node@.children,
                    0,
                    EntryScan { name: Seq::empty(), value: UNASSIGNED, bad: false },
                ),
            decreases n - i,
        {
            let entry = &node.children[i];
            proof {
                lemma_children(entry);
            }
            if entry.rule == Rule::Name {
                name = entry.text.clone();
            } else if entry.rule == Rule::EnumAssign {
                match parse_u64(Self::get_enum_assign(entry).as_str()) {
                    Some(number) => {
                        value = number;
                    },
                    None => {
                        bad = true;
                    },
                }
            }
            i += 1;
        }
        if bad {
            Err(ApigenError::MissingRequiredField { enum_name: String::new(), entry: name })
        } else {
            Ok(EnumEntry { doc_comments: clone_lines(doc_comments), name, value })
        }
    }

    /// The entries that the field list `node` of an enum holds, each with the
    /// documentation comments that stand before it and with its value.
    pub fn fill_field_list_enum(node: &Node) -> (res: Result<Vec<EnumEntry>, ApigenError>)
        ensures
            result_view(res) == spec_field_list_enum(node@),
    {
        proof {
            lemma_children(node);
        }
        let mut entries: Vec<EnumEntry> = Vec::new();
        let mut doc_comments = no_lines();
        assert(entries.deep_view() =~= Seq::<EnumEntryView>::empty());
        let ghost start = EntriesScan { entries: Seq::empty(), docs: Seq::empty(), error: None };
        let n = node.children.len();
        let mut i: usize = 0;
        while i < n
            invariant
                i <= n,
                n == node.children@.len(),
                n == node@.children.len(),
                forall|k: int| 0 <= k < n ==> #[trigger] node@.children[k] == node.children@[k]@,
                start == (EntriesScan { entries: Seq::empty(), docs: Seq::empty(), error: None }),
                scan_entries(
                    node@.children,
                    i as int,
                    EntriesScan {
                        entries: entries.deep_view(),
                        docs: doc_comments.deep_view(),
                        error: None,
                    },
                ) == scan_entries(node@.children, 0, start),
            decreases n - i,
        {
            let entry = &node.children[i];
            proof {
                lemma_children(entry);
            }
            if entry.rule == Rule::DocComment {
                push_doc(&mut doc_comments, &entry.text);
            } else if entry.rule == Rule::Field && entry.children.len() > 0 {
                let field = &entry.children[0];
                proof {
                    lemma_children(field);
                }
                if field.rule == Rule::EnumEntry {
                    match Self::get_enum(&doc_comments, field) {
                        Ok(item) => {
                            push_deep(&mut entries, item);
                            doc_comments = no_lines();
                        },
                        Err(error) => {
                            proof {
                                lemma_entries_error_stays(
                                    node@.children,
                                    i + 1,
                                    EntriesScan {
                                        entries: entries.deep_view(),
                                        docs: doc_comments.deep_view(),
                                        error: Some(error@),
                                    },
                                );
                            }
                            return Err(error);
                        },
                    }
                }
            }
            i += 1;
        }
        let ghost found = entries.deep_view();
        let ghost raw = values_of(entries@);
        assert(raw =~= entry_values(found));
        let stuck = Self::assign_values(&mut entries);
        proof {
            lemma_first_unassignable(raw, 0);
        }
        match stuck {
            Some(at) => {
                assert(entries@[at as int].name@ == found[at as int].name);
                Err(
                    ApigenError::MissingRequiredField {
                        enum_name: String::new(),
                        entry: entries[at].name.clone(),
                    },
                )
            },
            None => {
                assert(entries.deep_view() =~= with_values(found));
                Ok(entries)
            },
        }
    }
}

} // verus!
