//! From the nodes of fields, parameters and signatures to variables and functions.

use vstd::prelude::*;
use vstd::string::StringExecFns;
use crate::api_parser::ApiParser;
use crate::model::{
    ArrayType, ArrayTypeView, EnumType, Function, FunctionType, FunctionView, TypeModifier,
    Variable, VariableType, VariableView,
};
use crate::text::{clone_lines, no_lines, str_eq};
use crate::tree::{lemma_children, Node, Rule, Tree};

verus! {

/// Whether `name` is the name of a primitive type.
pub open spec fn is_primitive_name(name: Seq<char>) -> bool {
    name == "void"@ || name == "i8"@ || name == "u8"@ || name == "i16"@ || name == "u16"@ || name
        == "i32"@ || name == "u32"@ || name == "i64"@ || name == "u64"@ || name == "bool"@ || name
        == "f32"@ || name == "f64"@
}

/// The classification of a type by its name: the string type, a primitive type, or
/// any other type.
pub open spec fn classification(name: Seq<char>) -> VariableType {
    if name == "String"@ {
        VariableType::Str
    } else if is_primitive_name(name) {
        VariableType::Primitive
    } else {
        VariableType::Regular
    }
}

/// Every primitive name is classified as primitive, and every other name but
/// `String` as regular.
pub proof fn lemma_classification(name: Seq<char>)
    ensures
        is_primitive_name(name) ==> classification(name) == VariableType::Primitive,
        name == "String"@ ==> classification(name) == VariableType::Str,
        !is_primitive_name(name) && name != "String"@ ==> classification(name)
            == VariableType::Regular,
{
    reveal_strlit("String");
    reveal_strlit("void");
    reveal_strlit("i8");
    reveal_strlit("u8");
    reveal_strlit("i16");
    reveal_strlit("u16");
    reveal_strlit("i32");
    reveal_strlit("u32");
    reveal_strlit("i64");
    reveal_strlit("u64");
    reveal_strlit("bool");
    reveal_strlit("f32");
    reveal_strlit("f64");
    if is_primitive_name(name) {
        assert(name.len() <= 4);
        assert("String"@.len() == 6);
    }
}

/// Checks if name is a primitive.
pub fn is_primitve(name: &str) -> (res: bool)
    ensures
        res == is_primitive_name(name@),
{
    str_eq(name, "void") || str_eq(name, "i8") || str_eq(name, "u8") || str_eq(name, "i16")
        || str_eq(name, "u16") || str_eq(name, "i32") || str_eq(name, "u32") || str_eq(
        name,
        "i64",
    ) || str_eq(name, "u64") || str_eq(name, "bool") || str_eq(name, "f32") || str_eq(name, "f64")
}

/// The classification of a type by its name.
pub fn classify_type(name: &str) -> (res: VariableType)
    ensures
        res == classification(name@),
{
    if str_eq(name, "String") {
        VariableType::Str
    } else if is_primitve(name) {
        VariableType::Primitive
    } else {
        VariableType::Regular
    }
}

/// The text of the first of `children` from `i` on whose rule is `a` or `b`; empty
/// where there is none.
pub open spec fn first_text_of(children: Seq<Tree>, i: int, a: Rule, b: Rule) -> Seq<char>
    decreases children.len() - i,
{
    if i < 0 || i >= children.len() {
        Seq::empty()
    } else if children[i].rule == a || children[i].rule == b {
        children[i].text
    } else {
        first_text_of(children, i + 1, a, b)
    }
}

/// The text of the first child of `node` whose rule is `a` or `b`.
pub fn first_text(node: &Node, a: Rule, b: Rule) -> (text: String)
    ensures
        text@ == first_text_of(node@.children, 0, a, b),
{
    proof {
        lemma_children(node);
    }
    let n = node.children.len();
    let mut i: usize = 0;
    while i < n
        invariant
            i <= n,
            n == node.children@.len(),
            n == node@.children.len(),
            forall|k: int| 0 <= k < n ==> #[trigger] node@.children[k] == node.children@[k]@,
            first_text_of(node@.children, i as int, a, b) == first_text_of(node@.children, 0, a, b),
        decreases n - i,
    {
        let child = &node.children[i];
        proof {
            lemma_children(child);
        }
        if child.rule == a || child.rule == b {
            return child.text.clone();
        }
        i += 1;
    }
    String::new()
}

/// The text of the last of `children` from `i` on whose rule is `a` or `b`; `found`
/// where there is none.
pub open spec fn last_text_of(children: Seq<Tree>, i: int, a: Rule, b: Rule, found: Seq<char>) -> Seq<
    char,
>
    decreases children.len() - i,
{
    if i < 0 || i >= children.len() {
        found
    } else if children[i].rule == a || children[i].rule == b {
        last_text_of(children, i + 1, a, b, children[i].text)
    } else {
        last_text_of(children, i + 1, a, b, found)
    }
}

/// The text of the last child of `node` whose rule is `a` or `b`; empty where there
/// is none.
pub fn last_text(node: &Node, a: Rule, b: Rule) -> (text: String)
    ensures
        text@ == last_text_of(node@.children, 0, a, b, Seq::empty()),
{
    proof {
        lemma_children(node);
    }
    let mut text = String::new();
    let n = node.children.len();
    let mut i: usize = 0;
    while i < n
        invariant
            i <= n,
            n == node.children@.len(),
            n == node@.children.len(),
            forall|k: int| 0 <= k < n ==> #[trigger] node@.children[k] == node.children@[k]@,
            last_text_of(node@.children, i as int, a, b, text@) == last_text_of(
                node@.children,
                0,
                a,
                b,
                Seq::empty(),
            ),
        decreases n - i,
    {
        let child = &node.children[i];
        proof {
            lemma_children(child);
        }
        if child.rule == a || child.rule == b {
            text = child.text.clone();
        }
        i += 1;
    }
    text
}

/// The text of the first child of a node; empty where it has none.
pub open spec fn inner_text(node: Tree) -> Seq<char> {
    if node.children.len() > 0 {
        node.children[0].text
    } else {
        Seq::empty()
    }
}

/// The text of the first child of `node`; empty where it has none.
pub fn first_child_text(node: &Node) -> (text: String)
    ensures
        text@ == inner_text(node@),
{
    proof {
        lemma_children(node);
    }
    if node.children.len() > 0 {
        let child = &node.children[0];
        proof {
            lemma_children(child);
        }
        child.text.clone()
    } else {
        String::new()
    }
}

/// What the scan of a variable's node has found so far.
pub struct VarScan {
    pub name: Seq<char>,
    pub vtype_name: Seq<char>,
    pub modifier: TypeModifier,
    pub optional: bool,
    pub default_value: Seq<char>,
    pub array: Option<ArrayTypeView>,
}

impl VarScan {
    /// Nothing found.
    pub open spec fn start() -> VarScan {
        VarScan {
            name: Seq::empty(),
            vtype_name: Seq::empty(),
            modifier: TypeModifier::NoModifier,
            optional: false,
            default_value: Seq::empty(),
            array: None,
        }
    }
}

/// The modifier that a node of `rule` stands for, if any.
pub open spec fn modifier_of(rule: Rule) -> Option<TypeModifier> {
    match rule {
        Rule::RefExp => Some(TypeModifier::Reference),
        Rule::PointerExp => Some(TypeModifier::MutPointer),
        Rule::ConstPtrExp => Some(TypeModifier::ConstPointer),
        _ => None,
    }
}

/// One step of the scan inside an array node: a type sets the name of the type; a
/// pointer or reference mark sets the modifier; a size makes the array a sized one,
/// with the text of the size's first child as its size.
pub open spec fn array_step(scan: VarScan, child: Tree) -> VarScan {
    if child.rule == Rule::VType {
        VarScan { vtype_name: child.text, ..scan }
    } else if modifier_of(child.rule) is Some {
        VarScan { modifier: modifier_of(child.rule)->0, ..scan }
    } else if child.rule == Rule::ArraySize {
        VarScan { array: Some(ArrayTypeView::SizedArray(inner_text(child))), ..scan }
    } else {
        scan
    }
}

/// The scan of the children of an array node from `i` on.
pub open spec fn scan_array(children: Seq<Tree>, i: int, scan: VarScan) -> VarScan
    decreases children.len() - i,
{
    if i < 0 || i >= children.len() {
        scan
    } else {
        scan_array(children, i + 1, array_step(scan, children[i]))
    }
}

/// One step of the scan of a variable's node: a name sets the name; a type sets the
/// name of the type; a pointer or reference mark sets the modifier; the optional mark
/// sets the flag; a default value sets its text to the first literal it holds; an
/// array makes the variable an unsized array and is scanned in turn.
pub open spec fn var_step(scan: VarScan, child: Tree) -> VarScan {
    if child.rule == Rule::Name {
        VarScan { name: child.text, ..scan }
    } else if child.rule == Rule::VType {
        VarScan { vtype_name: child.text, ..scan }
    } else if modifier_of(child.rule) is Some {
        VarScan { modifier: modifier_of(child.rule)->0, ..scan }
    } else if child.rule == Rule::Optional {
        VarScan { optional: true, ..scan }
    } else if child.rule == Rule::DefaultVal {
        VarScan {
            default_value: first_text_of(child.children, 0, Rule::NameOrNum, Rule::StringLit),
            ..scan
        }
    } else if child.rule == Rule::Array {
        scan_array(child.children, 0, VarScan { array: Some(ArrayTypeView::Unsized), ..scan })
    } else {
        scan
    }
}

/// The scan of the children of a variable's node from `i` on.
pub open spec fn scan_var(children: Seq<Tree>, i: int, scan: VarScan) -> VarScan
    decreases children.len() - i,
{
    if i < 0 || i >= children.len() {
        scan
    } else {
        scan_var(children, i + 1, var_step(scan, children[i]))
    }
}

/// The variable that a node states, with `docs` as its documentation.
pub open spec fn spec_variable(node: Tree, docs: Seq<Seq<char>>) -> VariableView {
    let scan = scan_var(node.children, 0, VarScan::start());
    VariableView {
        doc_comments: docs,
        def_file: Seq::empty(),
        name: scan.name,
        vtype: classification(scan.vtype_name),
        vtype_name: scan.vtype_name,
        default_value: scan.default_value,
        enum_type: EnumType::Regular,
        array: scan.array,
        type_modifier: scan.modifier,
        optional: scan.optional,
    }
}

/// The scan inside an array node leaves name, flag and default value as they are, and
/// an array an array.
proof fn lemma_scan_array_keeps(children: Seq<Tree>, i: int, scan: VarScan)
    ensures
        scan_array(children, i, scan).name == scan.name,
        scan_array(children, i, scan).optional == scan.optional,
        scan_array(children, i, scan).default_value == scan.default_value,
        scan.array is Some ==> scan_array(children, i, scan).array is Some,
    decreases children.len() - i,
{
    if 0 <= i < children.len() {
        lemma_scan_array_keeps(children, i + 1, array_step(scan, children[i]));
    }
}

/// Whether one of `children` from `i` on has the rule `rule`.
pub open spec fn has_rule_from(children: Seq<Tree>, i: int, rule: Rule) -> bool {
    exists|k: int| i <= k < children.len() && 0 <= k && (#[trigger] children[k]).rule == rule
}

/// What the scan of a variable's node makes of names, optional marks and arrays.
proof fn lemma_scan_var(children: Seq<Tree>, i: int, scan: VarScan)
    requires
        0 <= i,
    ensures
        scan_var(children, i, scan).name == last_text_of(
            children,
            i,
            Rule::Name,
            Rule::Name,
            scan.name,
        ),
        scan_var(children, i, scan).optional == (scan.optional || has_rule_from(
            children,
            i,
            Rule::Optional,
        )),
        scan_var(children, i, scan).array is Some == (scan.array is Some || has_rule_from(
            children,
            i,
            Rule::Array,
        )),
    decreases children.len() - i,
{
    if i < children.len() {
        let child = children[i];
        let next = var_step(scan, child);
        if child.rule == Rule::Array {
            lemma_scan_array_keeps(
                child.children,
                0,
                VarScan { array: Some(ArrayTypeView::Unsized), ..scan },
            );
        }
        lemma_scan_var(children, i + 1, next);
        if has_rule_from(children, i, Rule::Optional) && child.rule != Rule::Optional {
            let k = choose|k: int|
                i <= k < children.len() && 0 <= k && (#[trigger] children[k]).rule
                    == Rule::Optional;
            assert(has_rule_from(children, i + 1, Rule::Optional));
        }
        if has_rule_from(children, i, Rule::Array) && child.rule != Rule::Array {
            let k = choose|k: int|
                i <= k < children.len() && 0 <= k && (#[trigger] children[k]).rule == Rule::Array;
            assert(has_rule_from(children, i + 1, Rule::Array));
        }
    }
}

/// The shape that the first `n` children of an array node state: a sized array with
/// the size of the last size among them; `base` where there is none.
pub open spec fn shape_upto(children: Seq<Tree>, n: int, base: ArrayTypeView) -> ArrayTypeView {
    let at = last_of(children, n, Rule::ArraySize);
    if at < 0 {
        base
    } else {
        ArrayTypeView::SizedArray(inner_text(children[at]))
    }
}

/// The shape that an array node states: sized where it holds a size, unsized where it
/// holds none.
pub open spec fn array_shape(node: Tree) -> ArrayTypeView {
    shape_upto(node.children, node.children.len() as int, ArrayTypeView::Unsized)
}

/// The scan inside an array node ends with the shape that the node states.
proof fn lemma_scan_array_shape(children: Seq<Tree>, i: int, scan: VarScan, base: ArrayTypeView)
    requires
        0 <= i <= children.len(),
        scan.array == Some(shape_upto(children, i, base)),
    ensures
        scan_array(children, i, scan).array == Some(
            shape_upto(children, children.len() as int, base),
        ),
    decreases children.len() - i,
{
    if i < children.len() {
        lemma_scan_array_shape(children, i + 1, array_step(scan, children[i]), base);
    }
}

/// The array shape that the first `n` children of a variable's node state: that of
/// the last array among them; none where there is no array.
pub open spec fn array_upto(children: Seq<Tree>, n: int) -> Option<ArrayTypeView> {
    let at = last_of(children, n, Rule::Array);
    if at < 0 {
        None
    } else {
        Some(array_shape(children[at]))
    }
}

/// The default value that the first `n` children of a variable's node state: the
/// first literal of the last default value among them; empty where there is none.
pub open spec fn default_upto(children: Seq<Tree>, n: int) -> Seq<char> {
    let at = last_of(children, n, Rule::DefaultVal);
    if at < 0 {
        Seq::empty()
    } else {
        first_text_of(children[at].children, 0, Rule::NameOrNum, Rule::StringLit)
    }
}

/// The scan of a variable's node ends with the shape of its last array and the first
/// literal of its last default value.
proof fn lemma_scan_var_values(children: Seq<Tree>, i: int, scan: VarScan)
    requires
        0 <= i <= children.len(),
        scan.array == array_upto(children, i),
        scan.default_value == default_upto(children, i),
    ensures
        scan_var(children, i, scan).array == array_upto(children, children.len() as int),
        scan_var(children, i, scan).default_value == default_upto(
            children,
            children.len() as int,
        ),
    decreases children.len() - i,
{
    if i < children.len() {
        let child = children[i];
        if child.rule == Rule::Array {
            let inside = VarScan { array: Some(ArrayTypeView::Unsized), ..scan };
            lemma_scan_array_keeps(child.children, 0, inside);
            lemma_scan_array_shape(child.children, 0, inside, ArrayTypeView::Unsized);
        }
        lemma_scan_var_values(children, i + 1, var_step(scan, child));
    }
}

/// The array shape of a variable is that of the last array that its node holds: sized,
/// with the text of the size's first child, where that array holds a size, unsized
/// where it holds none; a node without an array states no array. The default value
/// of a variable is the first literal of the last default value that its node holds;
/// empty where it holds none.
pub proof fn lemma_variable_values(node: Tree, docs: Seq<Seq<char>>)
    ensures
        spec_variable(node, docs).array == array_upto(node.children, node.children.len() as int),
        spec_variable(node, docs).default_value == default_upto(
            node.children,
            node.children.len() as int,
        ),
{
    lemma_scan_var_values(node.children, 0, VarScan::start());
}

/// The variable that a node states has the text of the node's last name as its name;
/// it is optional where the node holds an optional mark, and an array where the node
/// holds an array; its classification follows from the name of its type alone, and is
/// that of a string, a primitive or a regular type.
pub proof fn lemma_variable(node: Tree, docs: Seq<Seq<char>>)
    ensures
        spec_variable(node, docs).doc_comments == docs,
        spec_variable(node, docs).name == last_text_of(
            node.children,
            0,
            Rule::Name,
            Rule::Name,
            Seq::empty(),
        ),
        spec_variable(node, docs).optional == has_rule_from(node.children, 0, Rule::Optional),
        spec_variable(node, docs).array is Some == has_rule_from(node.children, 0, Rule::Array),
        spec_variable(node, docs).vtype == classification(spec_variable(node, docs).vtype_name),
        spec_variable(node, docs).vtype == VariableType::Str || spec_variable(node, docs).vtype
            == VariableType::Primitive || spec_variable(node, docs).vtype == VariableType::Regular,
{
    lemma_scan_var(node.children, 0, VarScan::start());
}

/// The implicit receiver of an instance function.
pub open spec fn receiver() -> VariableView {
    VariableView { name: "self"@, vtype: VariableType::SelfType, ..VariableView::empty() }
}

/// The arguments that the children of a parameter list state from `i` on, behind `acc`.
pub open spec fn scan_args(children: Seq<Tree>, i: int, acc: Seq<VariableView>) -> Seq<
    VariableView,
>
    decreases children.len() - i,
{
    if i < 0 || i >= children.len() {
        acc
    } else {
        scan_args(children, i + 1, acc.push(spec_variable(children[i], Seq::empty())))
    }
}

/// The arguments that a function has without being given them: the receiver, unless
/// the function is static.
pub open spec fn implicit_args(is_static: bool) -> Seq<VariableView> {
    if is_static {
        Seq::empty()
    } else {
        seq![receiver()]
    }
}

/// The arguments of a function with this parameter list: the receiver, unless the
/// function is static, and then one variable for each child.
pub open spec fn spec_variable_list(node: Tree, is_static: bool) -> Seq<VariableView> {
    scan_args(node.children, 0, implicit_args(is_static))
}

/// What the scan of a function's node has found so far.
pub struct FnScan {
    pub name: Seq<char>,
    pub func_type: FunctionType,
    /// The declared parameters: the variables of the last parameter list.
    pub params: Seq<VariableView>,
    pub return_val: Option<VariableView>,
}

impl FnScan {
    /// Nothing found, of a function of an owning type.
    pub open spec fn start() -> FnScan {
        FnScan {
            name: Seq::empty(),
            func_type: FunctionType::Regular,
            params: Seq::empty(),
            return_val: None,
        }
    }

    /// Nothing found, of a function that is static without a mark: one that has no
    /// owning type, such as a callback.
    pub open spec fn static_start() -> FnScan {
        FnScan { func_type: FunctionType::Static, ..FnScan::start() }
    }
}

/// One step of the scan of a function's node: a name sets the name; the manual mark
/// makes the function manual; the static mark makes it static; a parameter list sets
/// the declared parameters; a return expression sets the return value.
pub open spec fn fn_step(scan: FnScan, child: Tree) -> FnScan {
    match child.rule {
        Rule::Name => FnScan { name: child.text, ..scan },
        Rule::ManualTyp => FnScan { func_type: FunctionType::Manual, ..scan },
        Rule::StaticTyp => FnScan { func_type: FunctionType::Static, ..scan },
        Rule::Varlist => FnScan { params: variables_of(child.children), ..scan },
        Rule::RetExp => FnScan { return_val: Some(spec_variable(child, Seq::empty())), ..scan },
        _ => scan,
    }
}

/// The scan of the children of a function's node from `i` on.
pub open spec fn scan_fn(children: Seq<Tree>, i: int, scan: FnScan) -> FnScan
    decreases children.len() - i,
{
    if i < 0 || i >= children.len() {
        scan
    } else {
        scan_fn(children, i + 1, fn_step(scan, children[i]))
    }
}

/// The function that a node states, with `docs` as its documentation: a function of
/// an owning type. It is static where its node holds a static mark; where it is not,
/// the receiver stands before its declared parameters.
pub open spec fn spec_function_of(node: Tree, docs: Seq<Seq<char>>) -> FunctionView {
    spec_function_from(node, docs, false)
}

/// The function without an owning type that a node states, with `docs` as its
/// documentation: it is static from the start and never has the receiver.
pub open spec fn spec_static_function_of(node: Tree, docs: Seq<Seq<char>>) -> FunctionView {
    spec_function_from(node, docs, true)
}

/// Whether the function that a node states is static: it is so from the start, or its
/// node holds a static mark, wherever that stands.
pub open spec fn is_static_function(node: Tree, from_start: bool) -> bool {
    from_start || has_rule_from(node.children, 0, Rule::StaticTyp)
}

/// The function that a node states where it is static from the start or not: its
/// arguments are the receiver, unless the function is static, and then the declared
/// parameters.
pub open spec fn spec_function_from(node: Tree, docs: Seq<Seq<char>>, from_start: bool) -> FunctionView {
    let scan = scan_fn(
        node.children,
        0,
        if from_start {
            FnScan::static_start()
        } else {
            FnScan::start()
        },
    );
    FunctionView {
        doc_comments: docs,
        def_file: Seq::empty(),
        name: scan.name,
        function_args: implicit_args(is_static_function(node, from_start)) + scan.params,
        return_val: scan.return_val,
        func_type: scan.func_type,
    }
}

/// One variable for each of `children`, in order, without documentation.
pub open spec fn variables_of(children: Seq<Tree>) -> Seq<VariableView> {
    Seq::new(children.len(), |k: int| spec_variable(children[k], Seq::empty()))
}

/// The scan of a parameter list adds one variable for each child, in order.
proof fn lemma_scan_args(children: Seq<Tree>, i: int, acc: Seq<VariableView>)
    requires
        0 <= i <= children.len(),
    ensures
        scan_args(children, i, acc) == acc + variables_of(children).skip(i),
    decreases children.len() - i,
{
    if i < children.len() {
        let next = acc.push(spec_variable(children[i], Seq::empty()));
        lemma_scan_args(children, i + 1, next);
        assert(next + variables_of(children).skip(i + 1) =~= acc + variables_of(children).skip(i));
    } else {
        assert(acc + variables_of(children).skip(i) =~= acc);
    }
}

/// The arguments of a function that is not static are the receiver, named `self` and
/// classified as the owning type, and behind it one variable for each child of the
/// parameter list; those of a static function are these variables alone.
pub proof fn lemma_variable_list(node: Tree, is_static: bool)
    ensures
        receiver().name == "self"@,
        receiver().vtype == VariableType::SelfType,
        spec_variable_list(node, is_static) == implicit_args(is_static) + variables_of(
            node.children,
        ),
        spec_variable_list(node, is_static) == (if is_static {
            variables_of(node.children)
        } else {
            seq![receiver()] + variables_of(node.children)
        }),
{
    lemma_scan_args(node.children, 0, implicit_args(is_static));
    assert(variables_of(node.children).skip(0) =~= variables_of(node.children));
    assert(Seq::<VariableView>::empty() + variables_of(node.children) =~= variables_of(
        node.children,
    ));
}

/// The index of the last child of `rule` among the first `n` of `children`; `-1`
/// where there is none.
pub open spec fn last_of(children: Seq<Tree>, n: int, rule: Rule) -> int
    decreases n,
{
    if n <= 0 || n > children.len() {
        -1
    } else if children[n - 1].rule == rule {
        n - 1
    } else {
        last_of(children, n - 1, rule)
    }
}

/// The index of the last parameter list among the first `n` of `children`; `-1`
/// where there is none.
pub open spec fn last_varlist(children: Seq<Tree>, n: int) -> int {
    last_of(children, n, Rule::Varlist)
}

/// The declared parameters that the first `n` of a function's `children` state: one
/// variable for each child of the last parameter list among them; none where there is
/// no parameter list.
pub open spec fn params_upto(children: Seq<Tree>, n: int) -> Seq<VariableView> {
    let at = last_varlist(children, n);
    if at < 0 {
        Seq::empty()
    } else {
        variables_of(children[at].children)
    }
}

/// The declared parameters of a function with these children.
pub open spec fn params_of(children: Seq<Tree>) -> Seq<VariableView> {
    params_upto(children, children.len() as int)
}

/// The scan of a function's node keeps the parameters of the last parameter list.
proof fn lemma_scan_fn(children: Seq<Tree>, i: int, scan: FnScan)
    requires
        0 <= i <= children.len(),
        scan.params == params_upto(children, i),
    ensures
        scan_fn(children, i, scan).params == params_of(children),
    decreases children.len() - i,
{
    if i < children.len() {
        lemma_scan_fn(children, i + 1, fn_step(scan, children[i]));
    }
}

/// Whether a function of this kind is static or manual.
pub open spec fn is_manual_static(func_type: FunctionType) -> bool {
    func_type == FunctionType::Static || func_type == FunctionType::Manual
}

/// Behind a static mark, or from a start that is static, a function is static or
/// manual; it is static unless a manual mark follows.
proof fn lemma_scan_fn_marks(children: Seq<Tree>, i: int, scan: FnScan)
    requires
        0 <= i,
    ensures
        is_manual_static(scan.func_type) || has_rule_from(children, i, Rule::StaticTyp)
            ==> is_manual_static(scan_fn(children, i, scan).func_type),
        scan.func_type == FunctionType::Static && !has_rule_from(children, i, Rule::ManualTyp)
            ==> scan_fn(children, i, scan).func_type == FunctionType::Static,
    decreases children.len() - i,
{
    if i < children.len() {
        let next = fn_step(scan, children[i]);
        lemma_scan_fn_marks(children, i + 1, next);
        if has_rule_from(children, i, Rule::StaticTyp) && children[i].rule != Rule::StaticTyp {
            let k = choose|k: int|
                i <= k < children.len() && 0 <= k && (#[trigger] children[k]).rule
                    == Rule::StaticTyp;
            assert(has_rule_from(children, i + 1, Rule::StaticTyp));
        }
        if has_rule_from(children, i + 1, Rule::ManualTyp) {
            let k = choose|k: int|
                i + 1 <= k < children.len() && 0 <= k && (#[trigger] children[k]).rule
                    == Rule::ManualTyp;
            assert(has_rule_from(children, i, Rule::ManualTyp));
        }
        if children[i].rule == Rule::ManualTyp {
            assert(has_rule_from(children, i, Rule::ManualTyp));
        }
    }
}

/// Whether none of `args` is the receiver.
pub open spec fn no_receiver(args: Seq<VariableView>) -> bool {
    forall|k: int| 0 <= k < args.len() ==> (#[trigger] args[k]).vtype != VariableType::SelfType
}

/// The variables that the children of a parameter list state hold no receiver.
pub proof fn lemma_variables_hold_no_receiver(children: Seq<Tree>)
    ensures
        no_receiver(variables_of(children)),
{
    assert forall|k: int| 0 <= k < variables_of(children).len() implies (
    #[trigger] variables_of(children)[k]).vtype != VariableType::SelfType by {
        lemma_variable(children[k], Seq::empty());
    }
}

/// The declared parameters of a function hold no receiver.
pub proof fn lemma_params_hold_no_receiver(children: Seq<Tree>)
    ensures
        no_receiver(params_of(children)),
{
    let at = last_varlist(children, children.len() as int);
    if at >= 0 {
        lemma_last_of(children, children.len() as int, Rule::Varlist);
        lemma_variables_hold_no_receiver(children[at].children);
    }
}

/// The receiver depends on nothing but whether the function is static. A function
/// whose node holds no static mark has the receiver, named `self`, classified as the
/// owning type and without a type name, as its first argument, and behind it its
/// declared parameters in their order, also where it declares none. A function whose
/// node holds a static mark, wherever it stands, has its declared parameters as
/// arguments and nothing else, and is static or manual.
pub proof fn lemma_receiver(node: Tree, docs: Seq<Seq<char>>)
    ensures
        spec_function_of(node, docs).function_args == (if has_rule_from(
            node.children,
            0,
            Rule::StaticTyp,
        ) {
            params_of(node.children)
        } else {
            seq![receiver()] + params_of(node.children)
        }),
        no_receiver(params_of(node.children)),
        !has_rule_from(node.children, 0, Rule::StaticTyp) ==> ({
            let args = spec_function_of(node, docs).function_args;
            &&& args.len() == params_of(node.children).len() + 1
            &&& args[0].name == "self"@
            &&& args[0].vtype == VariableType::SelfType
            &&& args[0].vtype_name == Seq::<char>::empty()
            &&& forall|k: int|
                0 <= k < params_of(node.children).len() ==> #[trigger] args[k + 1] == params_of(
                    node.children,
                )[k]
        }),
        has_rule_from(node.children, 0, Rule::StaticTyp) ==> no_receiver(
            spec_function_of(node, docs).function_args,
        ) && is_manual_static(spec_function_of(node, docs).func_type),
{
    lemma_scan_fn(node.children, 0, FnScan::start());
    lemma_scan_fn_marks(node.children, 0, FnScan::start());
    lemma_params_hold_no_receiver(node.children);
    let params = params_of(node.children);
    assert(Seq::<VariableView>::empty() + params =~= params);
}

/// A function without an owning type never has the receiver: with or without a static
/// mark, its arguments are the variables of its last parameter list and nothing else,
/// as many as that list has children; without a parameter list it has none. It is
/// static or manual, and static unless its node holds a manual mark.
pub proof fn lemma_static_function(node: Tree, docs: Seq<Seq<char>>)
    ensures
        spec_static_function_of(node, docs).function_args == params_of(node.children),
        ({
            let at = last_varlist(node.children, node.children.len() as int);
            let args = spec_static_function_of(node, docs).function_args;
            &&& at < 0 ==> args == Seq::<VariableView>::empty()
            &&& at >= 0 ==> args == variables_of(node.children[at].children) && args.len()
                == node.children[at].children.len()
        }),
        no_receiver(spec_static_function_of(node, docs).function_args),
        is_manual_static(spec_static_function_of(node, docs).func_type),
        !has_rule_from(node.children, 0, Rule::ManualTyp) ==> spec_static_function_of(
            node,
            docs,
        ).func_type == FunctionType::Static,
{
    lemma_scan_fn(node.children, 0, FnScan::static_start());
    lemma_scan_fn_marks(node.children, 0, FnScan::static_start());
    lemma_params_hold_no_receiver(node.children);
    let params = params_of(node.children);
    assert(Seq::<VariableView>::empty() + params =~= params);
}

/// The last child of a rule is one of the children, and of that rule.
pub proof fn lemma_last_of(children: Seq<Tree>, n: int, rule: Rule)
    requires
        0 <= n <= children.len(),
    ensures
        -1 <= last_of(children, n, rule) < n,
        last_of(children, n, rule) >= 0 ==> children[last_of(children, n, rule)].rule == rule,
    decreases n,
{
    if n > 0 && children[n - 1].rule != rule {
        lemma_last_of(children, n - 1, rule);
    }
}

/// The parts of a variable while its node is scanned.
struct VarParts {
    name: String,
    vtype_name: String,
    modifier: TypeModifier,
    optional: bool,
    default_value: String,
    array: Option<ArrayType>,
}

impl View for VarParts {
    type V = VarScan;

    closed spec fn view(&self) -> VarScan {
        VarScan {
            name: self.name@,
            vtype_name: self.vtype_name@,
            modifier: self.modifier,
            optional: self.optional,
            default_value: self.default_value@,
            array: self.array.deep_view(),
        }
    }
}

/// The modifier that a node of `rule` stands for, if any.
fn modifier_for(rule: Rule) -> (res: Option<TypeModifier>)
    ensures
        res == modifier_of(rule),
{
    match rule {
        Rule::RefExp => Some(TypeModifier::Reference),
        Rule::PointerExp => Some(TypeModifier::MutPointer),
        Rule::ConstPtrExp => Some(TypeModifier::ConstPointer),
        _ => None,
    }
}

/// The scan of an array node.
fn array_parts(node: &Node, parts: VarParts) -> (res: VarParts)
    ensures
        res@ == scan_array(node@.children, 0, parts@),
{
    proof {
        lemma_children(node);
    }
    let mut parts = parts;
    let ghost start = parts@;
    let n = node.children.len();
    let mut i: usize = 0;
    while i < n
        invariant
            i <= n,
            n == node.children@.len(),
            n == node@.children.len(),
            forall|k: int| 0 <= k < n ==> #[trigger] node@.children[k] == node.children@[k]@,
            scan_array(node@.children, i as int, parts@) == scan_array(node@.children, 0, start),
        decreases n - i,
    {
        let child = &node.children[i];
        proof {
            lemma_children(child);
        }
        if child.rule == Rule::VType {
            parts.vtype_name = child.text.clone();
        } else if let Some(modifier) = modifier_for(child.rule) {
            parts.modifier = modifier;
        } else if child.rule == Rule::ArraySize {
            parts.array = Some(ArrayType::SizedArray(first_child_text(child)));
        }
        i += 1;
    }
    parts
}

impl ApiParser {
    /// Sets the default value of `var` to the first literal that the node of a
    /// default value holds; to nothing where it holds none.
    pub fn get_default_value(var: &mut Variable, node: &Node)
        ensures
            final(var)@ == (VariableView {
                default_value: first_text_of(node@.children, 0, Rule::NameOrNum, Rule::StringLit),
                ..old(var)@
            }),
    {
        var.default_value = first_text(node, Rule::NameOrNum, Rule::StringLit);
    }

    /// The variable that `node` states, with `doc_comments` as its documentation.
    pub fn get_variable(node: &Node, doc_comments: &Vec<String>) -> (var: Variable)
        ensures
            var@ == spec_variable(node@, doc_comments.deep_view()),
    {
        proof {
            lemma_children(node);
        }
        let mut parts = VarParts {
            name: String::new(),
            vtype_name: String::new(),
            modifier: TypeModifier::NoModifier,
            optional: false,
            default_value: String::new(),
            array: None,
        };
        let n = node.children.len();
        let mut i: usize = 0;
        while i < n
            invariant
                i <= n,
                n == node.children@.len(),
                n == node@.children.len(),
                forall|k: int| 0 <= k < n ==> #[trigger] node@.children[k] == node.children@[k]@,
                scan_var(node@.children, i as int, parts@) == scan_var(
                    node@.children,
                    0,
                    VarScan::start(),
                ),
            decreases n - i,
        {
            let child = &node.children[i];
            proof {
                lemma_children(child);
            }
            if child.rule == Rule::Name {
                parts.name = child.text.clone();
            } else if child.rule == Rule::VType {
                parts.vtype_name = child.text.clone();
            } else if let Some(modifier) = modifier_for(child.rule) {
                parts.modifier = modifier;
            } else if child.rule == Rule::Optional {
                parts.optional = true;
            } else if child.rule == Rule::DefaultVal {
                parts.default_value = first_text(child, Rule::NameOrNum, Rule::StringLit);
            } else if child.rule == Rule::Array {
                parts.array = Some(ArrayType::Unsized);
                parts = array_parts(child, parts);
            }
            i += 1;
        }
        let vtype = classify_type(parts.vtype_name.as_str());
        Variable {
            doc_comments: clone_lines(doc_comments),
            def_file: String::new(),
            name: parts.name,
            vtype,
            vtype_name: parts.vtype_name,
            default_value: parts.default_value,
            enum_type: EnumType::Regular,
            array: parts.array,
            type_modifier: parts.modifier,
            optional: parts.optional,
        }
    }

    /// The arguments that a function has without being given them: the receiver,
    /// named `self` and classified as the owning type, unless the function is static.
    pub fn get_implicit_args(is_static_func: bool) -> (variables: Vec<Variable>)
        ensures
            variables.deep_view() == implicit_args(is_static_func),
    {
        let mut variables: Vec<Variable> = Vec::new();
        if !is_static_func {
            let mut this = Variable::default();
            this.name = String::from_str("self");
            this.vtype = VariableType::SelfType;
            variables.push(this);
            assert(variables.deep_view() =~= seq![receiver()]);
        } else {
            assert(variables.deep_view() =~= Seq::<VariableView>::empty());
        }
        variables
    }

    /// The arguments of a function with the parameter list `node`: the receiver,
    /// unless the function is static, and then one variable for each child.
    pub fn get_variable_list(node: &Node, is_static_func: bool) -> (variables: Vec<Variable>)
        ensures
            variables.deep_view() == spec_variable_list(node@, is_static_func),
            !is_static_func ==> variables@.len() > 0 && variables@[0]@.name == "self"@
                && variables@[0]@.vtype == VariableType::SelfType,
    {
        proof {
            lemma_children(node);
        }
        let mut variables = Self::get_implicit_args(is_static_func);
        assert(!is_static_func ==> variables@.len() > 0 && variables@[0]@ == receiver()) by {
            if !is_static_func {
                assert(implicit_args(is_static_func) == seq![receiver()]);
                assert(variables.deep_view().len() == 1);
                assert(variables.deep_view().len() == variables@.len());
                assert(variables.deep_view()[0] == variables@[0]@);
            }
        }
        let docs = no_lines();
        let n = node.children.len();
        let mut i: usize = 0;
        while i < n
            invariant
                i <= n,
                n == node.children@.len(),
                n == node@.children.len(),
                docs.deep_view() == Seq::<Seq<char>>::empty(),
                forall|k: int| 0 <= k < n ==> #[trigger] node@.children[k] == node.children@[k]@,
                scan_args(node@.children, i as int, variables.deep_view()) == spec_variable_list(
                    node@,
                    is_static_func,
                ),
                !is_static_func ==> variables@.len() > 0 && variables@[0]@ == receiver(),
            decreases n - i,
        {
            let ghost before = variables.deep_view();
            let var = Self::get_variable(&node.children[i], &docs);
            variables.push(var);
            assert(variables.deep_view() =~= before.push(var@));
            i += 1;
        }
        variables
    }

    /// The function of an owning type that `node` states, with `doc_comments` as its
    /// documentation. It is static where `node` holds a static mark, wherever that
    /// stands; where it is not, the receiver stands before its declared parameters.
    pub fn get_function(node: &Node, doc_comments: &Vec<String>) -> (function: Function)
        ensures
            function@ == spec_function_of(node@, doc_comments.deep_view()),
    {
        function_from(node, doc_comments, false)
    }

    /// The function without an owning type that `node` states, with `doc_comments` as
    /// its documentation: it is static from the start and never has the receiver.
    pub fn get_static_function(node: &Node, doc_comments: &Vec<String>) -> (function: Function)
        ensures
            function@ == spec_static_function_of(node@, doc_comments.deep_view()),
    {
        function_from(node, doc_comments, true)
    }
}

/// Whether one of the children of `node` has the rule `rule`.
pub fn has_rule(node: &Node, rule: Rule) -> (res: bool)
    ensures
        res == has_rule_from(node@.children, 0, rule),
{
    proof {
        lemma_children(node);
    }
    let n = node.children.len();
    let mut i: usize = 0;
    while i < n
        invariant
            i <= n,
            n == node.children@.len(),
            n == node@.children.len(),
            forall|k: int| 0 <= k < n ==> #[trigger] node@.children[k] == node.children@[k]@,
            forall|k: int| 0 <= k < i ==> (#[trigger] node@.children[k]).rule != rule,
        decreases n - i,
    {
        let child = &node.children[i];
        proof {
            lemma_children(child);
        }
        if child.rule == rule {
            assert(node@.children[i as int].rule == rule);
            return true;
        }
        i += 1;
    }
    false
}

/// The function that `node` states where it is static from the start or not.
fn function_from(node: &Node, doc_comments: &Vec<String>, from_start: bool) -> (function: Function)
    ensures
        function@ == spec_function_from(node@, doc_comments.deep_view(), from_start),
{
    proof {
        lemma_children(node);
    }
    let ghost start = if from_start {
        FnScan::static_start()
    } else {
        FnScan::start()
    };
    let is_static_func = from_start || has_rule(node, Rule::StaticTyp);
    let mut name = String::new();
    let mut func_type = if from_start {
        FunctionType::Static
    } else {
        FunctionType::Regular
    };
    let mut function_args = ApiParser::get_implicit_args(is_static_func);
    let ghost mut params = Seq::<VariableView>::empty();
    let mut return_val: Option<Variable> = None;
    assert(function_args.deep_view() =~= implicit_args(is_static_func) + params);
    let docs = no_lines();
    let n = node.children.len();
    let mut i: usize = 0;
    while i < n
        invariant
            i <= n,
            n == node.children@.len(),
            n == node@.children.len(),
            docs.deep_view() == Seq::<Seq<char>>::empty(),
            forall|k: int| 0 <= k < n ==> #[trigger] node@.children[k] == node.children@[k]@,
            function_args.deep_view() == implicit_args(is_static_func) + params,
            scan_fn(
                node@.children,
                i as int,
                FnScan { name: name@, func_type, params, return_val: return_val.deep_view() },
            ) == scan_fn(node@.children, 0, start),
        decreases n - i,
    {
        let child = &node.children[i];
        proof {
            lemma_children(child);
        }
        match child.rule {
            Rule::Name => {
                name = child.text.clone();
            },
            Rule::ManualTyp => {
                func_type = FunctionType::Manual;
            },
            Rule::StaticTyp => {
                func_type = FunctionType::Static;
            },
            Rule::Varlist => {
                function_args = ApiParser::get_variable_list(child, is_static_func);
                proof {
                    lemma_variable_list(child@, is_static_func);
                    params = variables_of(child@.children);
                }
            },
            Rule::RetExp => {
                return_val = Some(ApiParser::get_variable(child, &docs));
            },
            _ => {},
        }
        i += 1;
    }
    Function {
        doc_comments: clone_lines(doc_comments),
        def_file: String::new(),
        name,
        function_args,
        return_val,
        func_type,
    }
}

} // verus!
