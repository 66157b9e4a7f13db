//! Rendering of variables and functions for a C header.
//!
//! Every type and function name of the model is written with a prefix that the caller
//! chooses in front.

use vstd::prelude::*;
use vstd::string::StrSliceExecFns;
use vstd::string::StringExecFns;
use std::borrow::Cow;
use crate::model::{
    ApiDef, ApiDefView, ArrayType, ArrayTypeView, ConstView, Function, FunctionView, TypeModifier,
    Variable, VariableType, VariableView,
};
use crate::text::{push_line, str_eq, to_chars};

verus! {

/// `name` without its first character.
pub open spec fn tail(name: Seq<char>) -> Seq<char> {
    if name.len() > 0 {
        name.skip(1)
    } else {
        name
    }
}

/// The C spelling of the primitive type `name`: a spelling of its own for `f32`,
/// `bool`, `f64`, `i32` and `void`; for every other name `uint` or `int`, by whether
/// the name starts with `u`, then the name without its first character, then `_t`.
pub open spec fn spec_c_primitive_type(name: Seq<char>) -> Seq<char> {
    if name == "f32"@ {
        "float"@
    } else if name == "bool"@ {
        "bool"@
    } else if name == "f64"@ {
        "double"@
    } else if name == "i32"@ {
        "int"@
    } else if name == "void"@ {
        "void"@
    } else if name.len() > 0 && name[0] == 'u' {
        "uint"@ + tail(name) + "_t"@
    } else {
        "int"@ + tail(name) + "_t"@
    }
}

/// Whether C writes `const` in front of a type with this modifier.
pub open spec fn is_const(modifier: TypeModifier) -> bool {
    modifier == TypeModifier::ConstPointer || modifier == TypeModifier::Reference
}

/// The C type of a variable without modifier.
pub open spec fn spec_c_base(var: VariableView, self_type: Seq<char>, c_prefix: Seq<char>) -> Seq<char> {
    match var.vtype {
        VariableType::NoType => "void"@,
        VariableType::SelfType => "struct "@ + c_prefix + self_type,
        VariableType::Regular => c_prefix + var.vtype_name,
        VariableType::Enum => c_prefix + var.vtype_name,
        VariableType::Str => "const char*"@,
        VariableType::Primitive => spec_c_primitive_type(var.vtype_name),
    }
}

/// The C type of a variable: `const` in front for a const pointer or a reference, and
/// `*` behind for every pointer or reference.
pub open spec fn spec_c_variable(var: VariableView, self_type: Seq<char>, c_prefix: Seq<char>) -> Seq<char> {
    let front = if is_const(var.type_modifier) {
        "const "@
    } else {
        Seq::empty()
    };
    let typed = front + spec_c_base(var, self_type, c_prefix);
    if var.type_modifier == TypeModifier::NoModifier {
        typed
    } else {
        typed + "*"@
    }
}

/// The C declarations of a struct's field, without indentation: one for a plain field
/// and for a sized array; a pointer and a size for an unsized array.
pub open spec fn spec_c_struct_fields(var: VariableView, c_prefix: Seq<char>) -> Seq<Seq<char>> {
    let typed = spec_c_variable(var, Seq::empty(), c_prefix);
    match var.array {
        None => seq![typed + " "@ + var.name + ";"@],
        Some(ArrayTypeView::Unsized) => seq![
            typed + "* "@ + var.name + ";"@,
            "uint64_t "@ + var.name + "_size;"@,
        ],
        Some(ArrayTypeView::SizedArray(size)) => seq![
            typed + " "@ + var.name + "["@ + size + "];"@,
        ],
    }
}

/// The lines `fields`, each behind four blanks, with a line break between them.
pub open spec fn indented(fields: Seq<Seq<char>>) -> Seq<char>
    decreases fields.len(),
{
    if fields.len() == 0 {
        Seq::empty()
    } else if fields.len() == 1 {
        "    "@ + fields[0]
    } else {
        indented(fields.drop_last()) + "\n"@ + "    "@ + fields.last()
    }
}

/// The text of a struct's field in C.
pub open spec fn spec_c_struct_variable(var: VariableView, c_prefix: Seq<char>) -> Seq<char> {
    indented(spec_c_struct_fields(var, c_prefix))
}

/// An unsized array field is rendered as exactly two declarations: a pointer under
/// the field's name and a 64-bit size under the same name with `_size` behind it.
pub proof fn lemma_unsized_array_field(var: VariableView, c_prefix: Seq<char>)
    requires
        var.array == Some(ArrayTypeView::Unsized),
    ensures
        spec_c_struct_fields(var, c_prefix).len() == 2,
        spec_c_struct_fields(var, c_prefix)[0] == spec_c_variable(var, Seq::empty(), c_prefix)
            + "* "@ + var.name + ";"@,
        spec_c_struct_fields(var, c_prefix)[1] == "uint64_t "@ + var.name + "_size;"@,
        spec_c_struct_variable(var, c_prefix) == "    "@ + spec_c_struct_fields(var, c_prefix)[0]
            + "\n"@ + "    "@ + spec_c_struct_fields(var, c_prefix)[1],
{
    let fields = spec_c_struct_fields(var, c_prefix);
    assert(fields.drop_last() =~= seq![fields[0]]);
    assert(indented(fields.drop_last()) == "    "@ + fields[0]);
}

/// Whether C writes an ellipsis for this argument.
pub open spec fn is_va_args(var: VariableView) -> bool {
    var.name == "va_args"@ && var.vtype_name == "VA_ARGS"@
}

/// The C parameters that one argument becomes: `const char*` for a string; an
/// ellipsis for the variadic argument; a pointer and a size for an unsized array; one
/// typed parameter otherwise.
pub open spec fn spec_c_argument(var: VariableView, self_name: Seq<char>, c_prefix: Seq<char>) -> Seq<
    Seq<char>,
> {
    let typed = spec_c_variable(var, self_name, c_prefix);
    if var.vtype == VariableType::Str {
        seq!["const char* "@ + var.name]
    } else {
        match var.array {
            None => if is_va_args(var) {
                seq!["..."@]
            } else {
                seq![typed + " "@ + var.name]
            },
            Some(ArrayTypeView::Unsized) => seq![
                typed + "* "@ + var.name,
                "uint64_t "@ + var.name + "_size"@,
            ],
            Some(ArrayTypeView::SizedArray(size)) => seq![
                typed + " "@ + var.name + "["@ + size + "]"@,
            ],
        }
    }
}

/// An unsized array argument that is no string is rendered as exactly two
/// parameters: a pointer under the argument's name and a 64-bit size under the same
/// name with `_size` behind it.
pub proof fn lemma_unsized_array_argument(var: VariableView, self_name: Seq<char>, c_prefix: Seq<char>)
    requires
        var.array == Some(ArrayTypeView::Unsized),
        var.vtype != VariableType::Str,
    ensures
        spec_c_argument(var, self_name, c_prefix).len() == 2,
        spec_c_argument(var, self_name, c_prefix)[0] == spec_c_variable(var, self_name, c_prefix)
            + "* "@ + var.name,
        spec_c_argument(var, self_name, c_prefix)[1] == "uint64_t "@ + var.name + "_size"@,
{
}

/// The C parameters of `args`, in order.
pub open spec fn spec_c_separated_arguments(args: Seq<VariableView>, self_name: Seq<char>, c_prefix: Seq<char>) -> Seq<
    Seq<char>,
>
    decreases args.len(),
{
    if args.len() == 0 {
        Seq::empty()
    } else {
        spec_c_separated_arguments(args.drop_last(), self_name, c_prefix) + spec_c_argument(
            args.last(),
            self_name,
            c_prefix,
        )
    }
}

/// `parts` with `sep` between them.
pub open spec fn join(parts: Seq<Seq<char>>, sep: Seq<char>) -> Seq<char>
    decreases parts.len(),
{
    if parts.len() == 0 {
        Seq::empty()
    } else if parts.len() == 1 {
        parts[0]
    } else {
        join(parts.drop_last(), sep) + sep + parts.last()
    }
}

/// The name under which an argument is handed on in C: name and size for an unsized
/// array; the caller's name for the receiver; its own name otherwise.
pub open spec fn spec_c_arg_name(var: VariableView, self_name: Seq<char>) -> Seq<char> {
    match var.array {
        Some(ArrayTypeView::Unsized) => var.name + ", "@ + var.name + "_size"@,
        Some(ArrayTypeView::SizedArray(_)) => var.name,
        None => if var.vtype == VariableType::SelfType {
            self_name
        } else {
            var.name
        },
    }
}

/// The names under which `args` are handed on in C, in order.
pub open spec fn spec_c_arg_names(args: Seq<VariableView>, self_name: Seq<char>) -> Seq<Seq<char>> {
    Seq::new(args.len(), |i: int| spec_c_arg_name(args[i], self_name))
}

/// The C type that a function returns.
pub open spec fn spec_c_return_value(function: FunctionView, c_prefix: Seq<char>) -> Seq<char> {
    match function.return_val {
        Some(ret) => spec_c_variable(ret, Seq::empty(), c_prefix),
        None => "void"@,
    }
}

/// `parts` joined, one more part at a time.
proof fn lemma_join_push(parts: Seq<Seq<char>>, sep: Seq<char>, part: Seq<char>)
    ensures
        join(parts.push(part), sep) == (if parts.len() == 0 {
            part
        } else {
            join(parts, sep) + sep + part
        }),
{
    assert(parts.push(part).drop_last() =~= parts);
}

impl Variable {
    /// The C spelling of the variable's type, taken as a primitive type.
    pub fn get_c_primitive_type(&self) -> (res: Cow<'_, str>)
        ensures
            res@ == spec_c_primitive_type(self.vtype_name@),
    {
        let tname = self.vtype_name.as_str();
        if str_eq(tname, "f32") {
            Cow::Borrowed("float")
        } else if str_eq(tname, "bool") {
            Cow::Borrowed("bool")
        } else if str_eq(tname, "f64") {
            Cow::Borrowed("double")
        } else if str_eq(tname, "i32") {
            Cow::Borrowed("int")
        } else if str_eq(tname, "void") {
            Cow::Borrowed("void")
        } else {
            let n = tname.unicode_len();
            let mut output = if n > 0 && tname.get_char(0) == 'u' {
                String::from_str("uint")
            } else {
                String::from_str("int")
            };
            if n > 0 {
                output.append(tname.substring_char(1, n));
                assert(tname@.subrange(1, n as int) =~= tail(tname@));
            } else {
                assert(output@ + tail(tname@) =~= output@);
            }
            output.append("_t");
            Cow::Owned(output)
        }
    }

    /// The C type of the variable. `self_type` is the name of the type that owns the
    /// function, for the receiver.
    pub fn get_c_variable(&self, self_type: &str, c_prefix: &str) -> (output: String)
        ensures
            output@ == spec_c_variable(self@, self_type@, c_prefix@),
    {
        let mut output = String::new();
        match self.type_modifier {
            TypeModifier::ConstPointer => output.append("const "),
            TypeModifier::Reference => output.append("const "),
            _ => {},
        }
        let ghost front = output@;
        assert(front =~= (if is_const(self.type_modifier) {
            "const "@
        } else {
            Seq::empty()
        }));
        match self.vtype {
            VariableType::NoType => output.append("void"),
            VariableType::SelfType => {
                output.append("struct ");
                output.append(c_prefix);
                output.append(self_type);
                assert(output@ =~= front + ("struct "@ + c_prefix@ + self_type@));
            },
            VariableType::Regular => {
                output.append(c_prefix);
                output.append(self.vtype_name.as_str());
                assert(output@ =~= front + (c_prefix@ + self.vtype_name@));
            },
            VariableType::Enum => {
                output.append(c_prefix);
                output.append(self.vtype_name.as_str());
                assert(output@ =~= front + (c_prefix@ + self.vtype_name@));
            },
            VariableType::Str => output.append("const char*"),
            VariableType::Primitive => {
                match self.get_c_primitive_type() {
                    Cow::Borrowed(spelling) => output.append(spelling),
                    Cow::Owned(spelling) => output.append(spelling.as_str()),
                }
            },
        }
        match self.type_modifier {
            TypeModifier::NoModifier => {},
            _ => output.append("*"),
        }
        output
    }

    /// The C declarations of the variable as a struct's field, without indentation.
    pub fn get_c_struct_fields(&self, c_prefix: &str) -> (fields: Vec<String>)
        ensures
            fields.deep_view() == spec_c_struct_fields(self@, c_prefix@),
    {
        let mut fields: Vec<String> = Vec::new();
        let mut first = self.get_c_variable("", c_prefix);
        assert(""@ =~= Seq::<char>::empty()) by {
            reveal_strlit("");
        }
        match &self.array {
            None => {
                first.append(" ");
                first.append(self.name.as_str());
                first.append(";");
                fields.push(first);
            },
            Some(ArrayType::Unsized) => {
                first.append("* ");
                first.append(self.name.as_str());
                first.append(";");
                let mut second = String::from_str("uint64_t ");
                second.append(self.name.as_str());
                second.append("_size;");
                fields.push(first);
                fields.push(second);
            },
            Some(ArrayType::SizedArray(size)) => {
                first.append(" ");
                first.append(self.name.as_str());
                first.append("[");
                first.append(size.as_str());
                first.append("];");
                fields.push(first);
            },
        }
        assert(fields.deep_view() =~= spec_c_struct_fields(self@, c_prefix@));
        fields
    }

    /// The text of the variable as a struct's field in C: each declaration on a line
    /// of its own behind four blanks.
    pub fn get_c_struct_variable(&self, c_prefix: &str) -> (output: String)
        ensures
            output@ == spec_c_struct_variable(self@, c_prefix@),
    {
        let fields = self.get_c_struct_fields(c_prefix);
        let mut output = String::new();
        let mut i: usize = 0;
        while i < fields.len()
            invariant
                i <= fields.len(),
                output@ == indented(fields.deep_view().take(i as int)),
            decreases fields.len() - i,
        {
            let ghost before = fields.deep_view().take(i as int);
            let ghost line = fields.deep_view()[i as int];
            assert(fields.deep_view().take(i + 1) =~= before.push(line));
            assert(before.push(line).drop_last() =~= before);
            if i > 0 {
                output.append("\n");
            }
            output.append("    ");
            output.append(fields[i].as_str());
            assert(output@ =~= indented(before.push(line)));
            i += 1;
        }
        assert(fields.deep_view().take(fields.len() as int) =~= fields.deep_view());
        output
    }
}

impl Function {
    /// The C parameters of the function, one text for each. `self_name` is the name
    /// of the type that owns the function.
    pub fn get_c_separated_arguments(&self, self_name: &str, c_prefix: &str) -> (args: Vec<String>)
        ensures
            args.deep_view() == spec_c_separated_arguments(
                self@.function_args,
                self_name@,
                c_prefix@,
            ),
    {
        let mut args: Vec<String> = Vec::new();
        assert(args.deep_view() =~= Seq::<Seq<char>>::empty());
        let n = self.function_args.len();
        let ghost all = self@.function_args;
        let mut i: usize = 0;
        while i < n
            invariant
                i <= n,
                n == self.function_args@.len(),
                all == self@.function_args,
                args.deep_view() == spec_c_separated_arguments(
                    all.take(i as int),
                    self_name@,
                    c_prefix@,
                ),
            decreases n - i,
        {
            let arg = &self.function_args[i];
            let ghost before = args.deep_view();
            assert(all.take(i + 1).drop_last() =~= all.take(i as int));
            assert(all.take(i + 1).last() == arg@);
            if arg.vtype == VariableType::Str {
                let mut text = String::from_str("const char* ");
                text.append(arg.name.as_str());
                push_line(&mut args, text);
            } else {
                match &arg.array {
                    None => {
                        if str_eq(arg.name.as_str(), "va_args") && str_eq(
                            arg.vtype_name.as_str(),
                            "VA_ARGS",
                        ) {
                            push_line(&mut args, String::from_str("..."));
                        } else {
                            let mut text = arg.get_c_variable(self_name, c_prefix);
                            text.append(" ");
                            text.append(arg.name.as_str());
                            push_line(&mut args, text);
                        }
                    },
                    Some(ArrayType::Unsized) => {
                        let mut text = arg.get_c_variable(self_name, c_prefix);
                        text.append("* ");
                        text.append(arg.name.as_str());
                        push_line(&mut args, text);
                        let mut size = String::from_str("uint64_t ");
                        size.append(arg.name.as_str());
                        size.append("_size");
                        push_line(&mut args, size);
                    },
                    Some(ArrayType::SizedArray(size)) => {
                        let mut text = arg.get_c_variable(self_name, c_prefix);
                        text.append(" ");
                        text.append(arg.name.as_str());
                        text.append("[");
                        text.append(size.as_str());
                        text.append("]");
                        push_line(&mut args, text);
                    },
                }
            }
            assert(args.deep_view() =~= before + spec_c_argument(arg@, self_name@, c_prefix@));
            i += 1;
        }
        assert(all.take(n as int) =~= all);
        args
    }

    /// The names under which the arguments are handed on in C, with `, ` between them.
    /// `self_name` is the name that the caller has for the receiver.
    pub fn get_c_arg_names(&self, self_name: &str) -> (output: String)
        ensures
            output@ == join(spec_c_arg_names(self@.function_args, self_name@), ", "@),
    {
        let mut output = String::new();
        let n = self.function_args.len();
        let ghost names = spec_c_arg_names(self@.function_args, self_name@);
        let mut i: usize = 0;
        while i < n
            invariant
                i <= n,
                n == self.function_args@.len(),
                names == spec_c_arg_names(self@.function_args, self_name@),
                output@ == join(names.take(i as int), ", "@),
            decreases n - i,
        {
            let arg = &self.function_args[i];
            proof {
                assert(names.take(i + 1) =~= names.take(i as int).push(names[i as int]));
                lemma_join_push(names.take(i as int), ", "@, names[i as int]);
                assert(names[i as int] == spec_c_arg_name(arg@, self_name@));
            }
            let ghost before = output@;
            if i > 0 {
                output.append(", ");
            }
            let ghost sep = output@;
            match &arg.array {
                Some(ArrayType::Unsized) => {
                    output.append(arg.name.as_str());
                    output.append(", ");
                    output.append(arg.name.as_str());
                    output.append("_size");
                    assert(output@ =~= sep + (arg.name@ + ", "@ + arg.name@ + "_size"@));
                },
                Some(ArrayType::SizedArray(_)) => {
                    output.append(arg.name.as_str());
                },
                None => {
                    if arg.vtype == VariableType::SelfType {
                        output.append(self_name);
                    } else {
                        output.append(arg.name.as_str());
                    }
                },
            }
            i += 1;
        }
        assert(names.take(n as int) =~= names);
        output
    }

    /// The C parameters of the function, with `, ` between them.
    pub fn get_c_arguments(&self, self_name: &str, c_prefix: &str) -> (output: String)
        ensures
            output@ == join(
                spec_c_separated_arguments(self@.function_args, self_name@, c_prefix@),
                ", "@,
            ),
    {
        let args = self.get_c_separated_arguments(self_name, c_prefix);
        join_lines(&args, ", ")
    }

    /// The C type that the function returns; `void` where it returns nothing.
    pub fn get_c_return_value(&self, c_prefix: &str) -> (res: Cow<'_, str>)
        ensures
            res@ == spec_c_return_value(self@, c_prefix@),
    {
        assert(""@ =~= Seq::<char>::empty()) by {
            reveal_strlit("");
        }
        match &self.return_val {
            Some(ret) => Cow::Owned(ret.get_c_variable("", c_prefix)),
            None => Cow::Borrowed("void"),
        }
    }
}

/// `parts` with `sep` between them.
pub fn join_lines(parts: &Vec<String>, sep: &str) -> (output: String)
    ensures
        output@ == join(parts.deep_view(), sep@),
{
    let mut output = String::new();
    let ghost all = parts.deep_view();
    let mut i: usize = 0;
    while i < parts.len()
        invariant
            i <= parts.len(),
            all == parts.deep_view(),
            output@ == join(all.take(i as int), sep@),
        decreases parts.len() - i,
    {
        proof {
            assert(all.take(i + 1) =~= all.take(i as int).push(all[i as int]));
            lemma_join_push(all.take(i as int), sep@, all[i as int]);
        }
        if i > 0 {
            output.append(sep);
        }
        output.append(parts[i].as_str());
        i += 1;
    }
    assert(all.take(parts.len() as int) =~= all);
    output
}

/// Whether `pat` stands in `s` at `i`.
pub open spec fn occurs_at(s: Seq<char>, i: int, pat: Seq<char>) -> bool {
    0 <= i && i + pat.len() <= s.len() && s.subrange(i, i + pat.len()) == pat
}

/// `acc` and behind it `s` from `i` on, with `to` in place of every `pat`, found from
/// left to right without overlap.
pub open spec fn replaced_from(s: Seq<char>, i: int, pat: Seq<char>, to: Seq<char>, acc: Seq<char>) -> Seq<
    char,
>
    decreases s.len() - i,
{
    if i < 0 || i >= s.len() || pat.len() == 0 {
        acc
    } else if occurs_at(s, i, pat) {
        replaced_from(s, i + pat.len(), pat, to, acc + to)
    } else {
        replaced_from(s, i + 1, pat, to, acc.push(s[i]))
    }
}

/// `s` with `to` in place of every `pat`; `s` itself where `pat` is empty.
pub open spec fn replaced(s: Seq<char>, pat: Seq<char>, to: Seq<char>) -> Seq<char> {
    if pat.len() == 0 {
        s
    } else {
        replaced_from(s, 0, pat, to, Seq::empty())
    }
}

/// `s` without its first and its last character; empty where `s` has no two.
pub open spec fn unquoted(s: Seq<char>) -> Seq<char> {
    if s.len() >= 2 {
        s.subrange(1, s.len() - 1)
    } else {
        Seq::empty()
    }
}

/// `acc` and behind it the blocks of the constants named `_MANUAL_C` from `i` on: a
/// line break, the value without its quotes and with `c_prefix` in place of every
/// `{CPrefix}`, and a line break.
pub open spec fn manual_from(consts: Seq<ConstView>, i: int, c_prefix: Seq<char>, acc: Seq<char>) -> Seq<
    char,
>
    decreases consts.len() - i,
{
    if i < 0 || i >= consts.len() {
        acc
    } else if consts[i].name == "_MANUAL_C"@ {
        manual_from(
            consts,
            i + 1,
            c_prefix,
            acc + "\n"@ + unquoted(replaced(consts[i].value, "{CPrefix}"@, c_prefix)) + "\n"@,
        )
    } else {
        manual_from(consts, i + 1, c_prefix, acc)
    }
}

/// The C code that a file hands through by hand.
pub open spec fn spec_c_manual(def: ApiDefView, c_prefix: Seq<char>) -> Seq<char> {
    manual_from(def.consts, 0, c_prefix, Seq::empty())
}

/// `n` blanks.
pub open spec fn blanks(n: nat) -> Seq<char> {
    Seq::new(n, |i: int| ' ')
}

/// `acc` and behind it the comments from `i` on, each as a C comment on a line of its
/// own behind `indent` blanks.
pub open spec fn comments_from(comments: Seq<Seq<char>>, i: int, indent: nat, acc: Seq<char>) -> Seq<
    char,
>
    decreases comments.len() - i,
{
    if i < 0 || i >= comments.len() {
        acc
    } else {
        comments_from(
            comments,
            i + 1,
            indent,
            acc + blanks(indent) + "// "@ + comments[i] + "\n"@,
        )
    }
}

/// Whether `pat` stands in `s` at `i`.
fn matches_at(s: &Vec<char>, i: usize, pat: &Vec<char>) -> (res: bool)
    requires
        i <= s.len(),
    ensures
        res == occurs_at(s@, i as int, pat@),
{
    if pat.len() > s.len() - i {
        return false;
    }
    let mut k: usize = 0;
    while k < pat.len()
        invariant
            k <= pat.len(),
            i + pat.len() <= s.len(),
            s@.subrange(i as int, i + k) == pat@.take(k as int),
        decreases pat.len() - k,
    {
        if s[i + k] != pat[k] {
            assert(s@.subrange(i as int, i + pat.len())[k as int] != pat@[k as int]);
            return false;
        }
        assert(s@.subrange(i as int, i + k + 1) =~= s@.subrange(i as int, i + k).push(
            s@[i + k],
        ));
        assert(pat@.take(k + 1) =~= pat@.take(k as int).push(pat@[k as int]));
        k += 1;
    }
    assert(pat@.take(pat.len() as int) =~= pat@);
    true
}

/// `s` with `to` in place of every `pat`.
pub fn replace_all(s: &str, pat: &str, to: &str) -> (res: String)
    ensures
        res@ == replaced(s@, pat@, to@),
{
    let pattern = to_chars(pat);
    if pattern.len() == 0 {
        return String::from_str(s);
    }
    let chars = to_chars(s);
    let mut res = String::new();
    let mut i: usize = 0;
    while i < chars.len()
        invariant
            i <= chars.len(),
            chars@ == s@,
            pattern@ == pat@,
            pattern.len() > 0,
            replaced_from(s@, i as int, pat@, to@, res@) == replaced(s@, pat@, to@),
        decreases chars.len() - i,
    {
        if matches_at(&chars, i, &pattern) {
            res.append(to);
            i += pattern.len();
        } else {
            res.push(chars[i]);
            i += 1;
        }
    }
    res
}

/// `text` without its first and its last character.
fn strip_ends(text: &str) -> (res: String)
    ensures
        res@ == unquoted(text@),
{
    let n = text.unicode_len();
    if n >= 2 {
        String::from_str(text.substring_char(1, n - 1))
    } else {
        String::new()
    }
}

impl ApiDef {
    /// The C code that the file hands through by hand: for every constant named
    /// `_MANUAL_C` its value between two line breaks, without its quotes and with
    /// `c_prefix` in place of every `{CPrefix}`.
    pub fn write_c_manual(&self, c_prefix: &str) -> (out: String)
        ensures
            out@ == spec_c_manual(self@, c_prefix@),
    {
        let mut out = String::new();
        let ghost all = self@.consts;
        let n = self.consts.len();
        let mut i: usize = 0;
        while i < n
            invariant
                i <= n,
                n == self.consts@.len(),
                all == self@.consts,
                manual_from(all, i as int, c_prefix@, out@) == spec_c_manual(self@, c_prefix@),
            decreases n - i,
        {
            let c = &self.consts[i];
            assert(all[i as int] == c@);
            if str_eq(c.name.as_str(), "_MANUAL_C") {
                let t = replace_all(c.value.as_str(), "{CPrefix}", c_prefix);
                out.append("\n");
                out.append(strip_ends(t.as_str()).as_str());
                out.append("\n");
            }
            i += 1;
        }
        out
    }
}

/// `comments` as C comments, each on a line of its own behind `indent` blanks.
pub fn write_c_commments(comments: &Vec<String>, indent: usize) -> (out: String)
    ensures
        out@ == comments_from(comments.deep_view(), 0, indent as nat, Seq::empty()),
{
    let mut out = String::new();
    let ghost all = comments.deep_view();
    let n = comments.len();
    let mut i: usize = 0;
    while i < n
        invariant
            i <= n,
            n == comments@.len(),
            all == comments.deep_view(),
            comments_from(all, i as int, indent as nat, out@) == comments_from(
                all,
                0,
                indent as nat,
                Seq::empty(),
            ),
        decreases n - i,
    {
        let ghost before = out@;
        let mut k: usize = 0;
        while k < indent
            invariant
                k <= indent,
                out@ == before + blanks(k as nat),
            decreases indent - k,
        {
            out.push(' ');
            assert(out@ =~= before + blanks((k + 1) as nat));
            k += 1;
        }
        out.append("// ");
        out.append(comments[i].as_str());
        out.append("\n");
        i += 1;
    }
    out
}

} // verus!
