//! The declaration model: what one definition file declares, after parsing.
//!
//! Each type has a view that replaces every `String` by its characters and every `Vec`
//! by a `Seq`. Contracts across the library are stated over these views.

use vstd::prelude::*;
use crate::text::str_eq;

verus! {

/// How a variable's type is classified.
#[derive(Clone, Copy, Debug, PartialEq, Eq, Structural)]
pub enum VariableType {
    /// Not classified.
    NoType,
    /// The implicit receiver of an instance function.
    SelfType,
    /// An enum declared in one of the parsed files.
    Enum,
    /// A struct or any other declared type.
    Regular,
    /// The string type.
    Str,
    /// One of the primitive types, such as `i32` or `u64`.
    Primitive,
}

/// Shape of an array.
#[derive(Clone, Debug, PartialEq)]
pub enum ArrayType {
    /// A pointer with a length known at run time.
    Unsized,
    /// A fixed length, kept as the text of the size expression.
    SizedArray(String),
}

/// View of an [`ArrayType`].
pub enum ArrayTypeView {
    Unsized,
    SizedArray(Seq<char>),
}

impl View for ArrayType {
    type V = ArrayTypeView;

    open spec fn view(&self) -> ArrayTypeView {
        match self {
            ArrayType::Unsized => ArrayTypeView::Unsized,
            ArrayType::SizedArray(size) => ArrayTypeView::SizedArray(size@),
        }
    }
}

impl DeepView for ArrayType {
    type V = ArrayTypeView;

    open spec fn deep_view(&self) -> ArrayTypeView {
        self@
    }
}

impl Default for ArrayType {
    fn default() -> (res: ArrayType)
        ensures
            res@ == ArrayTypeView::Unsized,
    {
        ArrayType::Unsized
    }
}

/// Modifier on a variable's type.
#[derive(Clone, Copy, Debug, PartialEq, Eq, Structural)]
pub enum TypeModifier {
    /// A plain value.
    NoModifier,
    /// `*const T`
    ConstPointer,
    /// `*T`
    MutPointer,
    /// `&T`
    Reference,
}

/// How an enum is represented in the generated bindings.
#[derive(Clone, Copy, Debug, PartialEq, Eq, Structural)]
pub enum EnumType {
    /// An ordinary enumeration.
    Regular,
    /// A set of flags that are combined with bitwise or.
    Bitflags,
}

impl Default for EnumType {
    fn default() -> (res: EnumType)
        ensures
            res == EnumType::Regular,
    {
        EnumType::Regular
    }
}

/// A field, a function argument, a return value or the subject of a type alias.
#[derive(Clone, Debug)]
pub struct Variable {
    /// Documentation lines.
    pub doc_comments: Vec<String>,
    /// The definition file the variable comes from.
    pub def_file: String,
    /// Name of the variable.
    pub name: String,
    /// Classification of the type.
    pub vtype: VariableType,
    /// Name of the type, as written.
    pub vtype_name: String,
    /// Text of the default value; empty if there is none.
    pub default_value: String,
    /// Representation of the enum, where the type is one.
    pub enum_type: EnumType,
    /// Shape of the array, where the variable is one.
    pub array: Option<ArrayType>,
    /// Pointer or reference modifier.
    pub type_modifier: TypeModifier,
    /// Whether the value may be absent.
    pub optional: bool,
}

/// View of a [`Variable`].
pub struct VariableView {
    pub doc_comments: Seq<Seq<char>>,
    pub def_file: Seq<char>,
    pub name: Seq<char>,
    pub vtype: VariableType,
    pub vtype_name: Seq<char>,
    pub default_value: Seq<char>,
    pub enum_type: EnumType,
    pub array: Option<ArrayTypeView>,
    pub type_modifier: TypeModifier,
    pub optional: bool,
}

impl VariableView {
    /// The variable that has nothing set.
    pub open spec fn empty() -> VariableView {
        VariableView {
            doc_comments: Seq::empty(),
            def_file: Seq::empty(),
            name: Seq::empty(),
            vtype: VariableType::NoType,
            vtype_name: Seq::empty(),
            default_value: Seq::empty(),
            enum_type: EnumType::Regular,
            array: None,
            type_modifier: TypeModifier::NoModifier,
            optional: false,
        }
    }
}

impl View for Variable {
    type V = VariableView;

    open spec fn view(&self) -> VariableView {
        VariableView {
            doc_comments: self.doc_comments.deep_view(),
            def_file: self.def_file@,
            name: self.name@,
            vtype: self.vtype,
            vtype_name: self.vtype_name@,
            default_value: self.default_value@,
            enum_type: self.enum_type,
            array: self.array.deep_view(),
            type_modifier: self.type_modifier,
            optional: self.optional,
        }
    }
}

impl DeepView for Variable {
    type V = VariableView;

    open spec fn deep_view(&self) -> VariableView {
        self@
    }
}

impl Default for Variable {
    fn default() -> (res: Variable)
        ensures
            res@ == VariableView::empty(),
    {
        let res = Variable {
            name: String::new(),
            doc_comments: Vec::new(),
            def_file: String::new(),
            vtype: VariableType::NoType,
            vtype_name: String::new(),
            enum_type: EnumType::Regular,
            default_value: String::new(),
            array: None,
            optional: false,
            type_modifier: TypeModifier::NoModifier,
        };
        assert(res.doc_comments.deep_view() =~= Seq::<Seq<char>>::empty());
        res
    }
}

/// Kind of a function.
#[derive(Clone, Copy, Debug, PartialEq, Eq, Structural)]
pub enum FunctionType {
    /// An instance function.
    Regular,
    /// A function without a receiver.
    Static,
    /// A function whose body is written by hand; only its signature is generated.
    Manual,
}

/// A function, a method or a callback.
#[derive(Clone, Debug)]
pub struct Function {
    /// Documentation lines.
    pub doc_comments: Vec<String>,
    /// The definition file the function comes from.
    pub def_file: String,
    /// Name of the function.
    pub name: String,
    /// Arguments, the implicit receiver included.
    pub function_args: Vec<Variable>,
    /// Return value, if any.
    pub return_val: Option<Variable>,
    /// Kind of the function.
    pub func_type: FunctionType,
}

/// View of a [`Function`].
pub struct FunctionView {
    pub doc_comments: Seq<Seq<char>>,
    pub def_file: Seq<char>,
    pub name: Seq<char>,
    pub function_args: Seq<VariableView>,
    pub return_val: Option<VariableView>,
    pub func_type: FunctionType,
}

impl FunctionView {
    /// The function that has nothing set.
    pub open spec fn empty() -> FunctionView {
        FunctionView {
            doc_comments: Seq::empty(),
            def_file: Seq::empty(),
            name: Seq::empty(),
            function_args: Seq::empty(),
            return_val: None,
            func_type: FunctionType::Regular,
        }
    }
}

impl View for Function {
    type V = FunctionView;

    open spec fn view(&self) -> FunctionView {
        FunctionView {
            doc_comments: self.doc_comments.deep_view(),
            def_file: self.def_file@,
            name: self.name@,
            function_args: self.function_args.deep_view(),
            return_val: self.return_val.deep_view(),
            func_type: self.func_type,
        }
    }
}

impl DeepView for Function {
    type V = FunctionView;

    open spec fn deep_view(&self) -> FunctionView {
        self@
    }
}

impl Default for Function {
    fn default() -> (res: Function)
        ensures
            res@ == FunctionView::empty(),
    {
        let res = Function {
            doc_comments: Vec::new(),
            name: String::new(),
            def_file: String::new(),
            function_args: Vec::new(),
            return_val: None,
            func_type: FunctionType::Regular,
        };
        assert(res.doc_comments.deep_view() =~= Seq::<Seq<char>>::empty());
        assert(res.function_args.deep_view() =~= Seq::<VariableView>::empty());
        res
    }
}

/// A struct or a union.
#[derive(Debug)]
pub struct Struct {
    /// Documentation lines.
    pub doc_comments: Vec<String>,
    /// Name of the struct.
    pub name: String,
    /// The definition file the struct comes from.
    pub def_file: String,
    /// Fields.
    pub variables: Vec<Variable>,
    /// Methods.
    pub functions: Vec<Function>,
    /// Attribute tags, such as `Handle`.
    pub attributes: Vec<String>,
    /// Names of the traits the struct has.
    pub traits: Vec<String>,
    /// Names the struct derives from.
    pub derives: Vec<String>,
}

/// View of a [`Struct`].
pub struct StructView {
    pub doc_comments: Seq<Seq<char>>,
    pub name: Seq<char>,
    pub def_file: Seq<char>,
    pub variables: Seq<VariableView>,
    pub functions: Seq<FunctionView>,
    pub attributes: Seq<Seq<char>>,
    pub traits: Seq<Seq<char>>,
    pub derives: Seq<Seq<char>>,
}

impl StructView {
    /// The struct that has nothing set.
    pub open spec fn empty() -> StructView {
        StructView {
            doc_comments: Seq::empty(),
            name: Seq::empty(),
            def_file: Seq::empty(),
            variables: Seq::empty(),
            functions: Seq::empty(),
            attributes: Seq::empty(),
            traits: Seq::empty(),
            derives: Seq::empty(),
        }
    }
}

impl View for Struct {
    type V = StructView;

    open spec fn view(&self) -> StructView {
        StructView {
            doc_comments: self.doc_comments.deep_view(),
            name: self.name@,
            def_file: self.def_file@,
            variables: self.variables.deep_view(),
            functions: self.functions.deep_view(),
            attributes: self.attributes.deep_view(),
            traits: self.traits.deep_view(),
            derives: self.derives.deep_view(),
        }
    }
}

impl DeepView for Struct {
    type V = StructView;

    open spec fn deep_view(&self) -> StructView {
        self@
    }
}

impl Default for Struct {
    fn default() -> (res: Struct)
        ensures
            res@ == StructView::empty(),
    {
        let res = Struct {
            doc_comments: Vec::new(),
            name: String::new(),
            def_file: String::new(),
            variables: Vec::new(),
            functions: Vec::new(),
            attributes: Vec::new(),
            traits: Vec::new(),
            derives: Vec::new(),
        };
        assert(res.doc_comments.deep_view() =~= Seq::<Seq<char>>::empty());
        assert(res.attributes.deep_view() =~= Seq::<Seq<char>>::empty());
        assert(res.traits.deep_view() =~= Seq::<Seq<char>>::empty());
        assert(res.derives.deep_view() =~= Seq::<Seq<char>>::empty());
        assert(res.variables.deep_view() =~= Seq::<VariableView>::empty());
        assert(res.functions.deep_view() =~= Seq::<FunctionView>::empty());
        res
    }
}

/// One entry of an enum.
#[derive(Debug)]
pub struct EnumEntry {
    /// Documentation lines.
    pub doc_comments: Vec<String>,
    /// Name of the entry.
    pub name: String,
    /// Value of the entry.
    pub value: u64,
}

/// View of an [`EnumEntry`].
pub struct EnumEntryView {
    pub doc_comments: Seq<Seq<char>>,
    pub name: Seq<char>,
    pub value: u64,
}

impl View for EnumEntry {
    type V = EnumEntryView;

    open spec fn view(&self) -> EnumEntryView {
        EnumEntryView {
            doc_comments: self.doc_comments.deep_view(),
            name: self.name@,
            value: self.value,
        }
    }
}

impl DeepView for EnumEntry {
    type V = EnumEntryView;

    open spec fn deep_view(&self) -> EnumEntryView {
        self@
    }
}

/// An enum.
#[derive(Debug)]
pub struct Enum {
    /// Documentation lines.
    pub doc_comments: Vec<String>,
    /// Name of the enum.
    pub name: String,
    /// The definition file the enum comes from.
    pub def_file: String,
    /// Representation chosen for the enum.
    pub enum_type: EnumType,
    /// A second name under which the flags form of the enum is known; empty if none.
    pub flags_name: String,
    /// Entries, in the order of declaration.
    pub entries: Vec<EnumEntry>,
}

/// View of an [`Enum`].
pub struct EnumView {
    pub doc_comments: Seq<Seq<char>>,
    pub name: Seq<char>,
    pub def_file: Seq<char>,
    pub enum_type: EnumType,
    pub flags_name: Seq<char>,
    pub entries: Seq<EnumEntryView>,
}

impl EnumView {
    /// The enum that has nothing set.
    pub open spec fn empty() -> EnumView {
        EnumView {
            doc_comments: Seq::empty(),
            name: Seq::empty(),
            def_file: Seq::empty(),
            enum_type: EnumType::Regular,
            flags_name: Seq::empty(),
            entries: Seq::empty(),
        }
    }

    /// The values of the entries, in order.
    pub open spec fn values(self) -> Seq<u64> {
        Seq::new(self.entries.len(), |i: int| self.entries[i].value)
    }
}

impl View for Enum {
    type V = EnumView;

    open spec fn view(&self) -> EnumView {
        EnumView {
            doc_comments: self.doc_comments.deep_view(),
            name: self.name@,
            def_file: self.def_file@,
            enum_type: self.enum_type,
            flags_name: self.flags_name@,
            entries: self.entries.deep_view(),
        }
    }
}

impl DeepView for Enum {
    type V = EnumView;

    open spec fn deep_view(&self) -> EnumView {
        self@
    }
}

impl Default for Enum {
    fn default() -> (res: Enum)
        ensures
            res@ == EnumView::empty(),
    {
        let res = Enum {
            doc_comments: Vec::new(),
            name: String::new(),
            def_file: String::new(),
            enum_type: EnumType::Regular,
            flags_name: String::new(),
            entries: Vec::new(),
        };
        assert(res.doc_comments.deep_view() =~= Seq::<Seq<char>>::empty());
        assert(res.entries.deep_view() =~= Seq::<EnumEntryView>::empty());
        res
    }
}

/// A type alias: the variable's name is the alias, its type the aliased type.
#[derive(Debug)]
pub struct Type {
    /// Documentation lines.
    pub doc_comments: Vec<String>,
    /// Alias and aliased type.
    pub var: Variable,
}

/// View of a [`Type`].
pub struct TypeView {
    pub doc_comments: Seq<Seq<char>>,
    pub var: VariableView,
}

impl TypeView {
    /// The alias that has nothing set.
    pub open spec fn empty() -> TypeView {
        TypeView { doc_comments: Seq::empty(), var: VariableView::empty() }
    }
}

impl View for Type {
    type V = TypeView;

    open spec fn view(&self) -> TypeView {
        TypeView { doc_comments: self.doc_comments.deep_view(), var: self.var@ }
    }
}

impl DeepView for Type {
    type V = TypeView;

    open spec fn deep_view(&self) -> TypeView {
        self@
    }
}

impl Default for Type {
    fn default() -> (res: Type)
        ensures
            res@ == TypeView::empty(),
    {
        let res = Type { doc_comments: Vec::new(), var: Variable::default() };
        assert(res.doc_comments.deep_view() =~= Seq::<Seq<char>>::empty());
        res
    }
}

/// A named constant whose value is kept as written.
#[derive(Debug)]
pub struct Const {
    /// Documentation lines.
    pub doc_comments: Vec<String>,
    /// Name of the constant.
    pub name: String,
    /// Text of the value: a quoted string with its quotes, or a name or number.
    pub value: String,
}

/// View of a [`Const`].
pub struct ConstView {
    pub doc_comments: Seq<Seq<char>>,
    pub name: Seq<char>,
    pub value: Seq<char>,
}

impl ConstView {
    /// The constant that has nothing set.
    pub open spec fn empty() -> ConstView {
        ConstView { doc_comments: Seq::empty(), name: Seq::empty(), value: Seq::empty() }
    }
}

impl View for Const {
    type V = ConstView;

    open spec fn view(&self) -> ConstView {
        ConstView {
            doc_comments: self.doc_comments.deep_view(),
            name: self.name@,
            value: self.value@,
        }
    }
}

impl DeepView for Const {
    type V = ConstView;

    open spec fn deep_view(&self) -> ConstView {
        self@
    }
}

impl Default for Const {
    fn default() -> (res: Const)
        ensures
            res@ == ConstView::empty(),
    {
        let res = Const { doc_comments: Vec::new(), name: String::new(), value: String::new() };
        assert(res.doc_comments.deep_view() =~= Seq::<Seq<char>>::empty());
        res
    }
}

/// Everything one definition file declares.
#[derive(Debug)]
pub struct ApiDef {
    /// Path of the file.
    pub filename: String,
    /// Name of the file without directories and extension.
    pub base_filename: String,
    /// Names of the modules the file refers to.
    pub mods: Vec<String>,
    /// Callbacks.
    pub callbacks: Vec<Function>,
    /// Structs.
    pub structs: Vec<Struct>,
    /// Enums.
    pub enums: Vec<Enum>,
    /// Type aliases.
    pub types: Vec<Type>,
    /// Unions.
    pub unions: Vec<Struct>,
    /// Constants.
    pub consts: Vec<Const>,
}

/// View of an [`ApiDef`].
pub struct ApiDefView {
    pub filename: Seq<char>,
    pub base_filename: Seq<char>,
    pub mods: Seq<Seq<char>>,
    pub callbacks: Seq<FunctionView>,
    pub structs: Seq<StructView>,
    pub enums: Seq<EnumView>,
    pub types: Seq<TypeView>,
    pub unions: Seq<StructView>,
    pub consts: Seq<ConstView>,
}

impl ApiDefView {
    /// The file that declares nothing.
    pub open spec fn empty() -> ApiDefView {
        ApiDefView {
            filename: Seq::empty(),
            base_filename: Seq::empty(),
            mods: Seq::empty(),
            callbacks: Seq::empty(),
            structs: Seq::empty(),
            enums: Seq::empty(),
            types: Seq::empty(),
            unions: Seq::empty(),
            consts: Seq::empty(),
        }
    }
}

impl View for ApiDef {
    type V = ApiDefView;

    open spec fn view(&self) -> ApiDefView {
        ApiDefView {
            filename: self.filename@,
            base_filename: self.base_filename@,
            mods: self.mods.deep_view(),
            callbacks: self.callbacks.deep_view(),
            structs: self.structs.deep_view(),
            enums: self.enums.deep_view(),
            types: self.types.deep_view(),
            unions: self.unions.deep_view(),
            consts: self.consts.deep_view(),
        }
    }
}

impl DeepView for ApiDef {
    type V = ApiDefView;

    open spec fn deep_view(&self) -> ApiDefView {
        self@
    }
}

impl Default for ApiDef {
    fn default() -> (res: ApiDef)
        ensures
            res@ == ApiDefView::empty(),
    {
        let res = ApiDef {
            filename: String::new(),
            base_filename: String::new(),
            mods: Vec::new(),
            callbacks: Vec::new(),
            structs: Vec::new(),
            enums: Vec::new(),
            types: Vec::new(),
            unions: Vec::new(),
            consts: Vec::new(),
        };
        assert(res.mods.deep_view() =~= Seq::<Seq<char>>::empty());
        assert(res.callbacks.deep_view() =~= Seq::<FunctionView>::empty());
        assert(res.structs.deep_view() =~= Seq::<StructView>::empty());
        assert(res.enums.deep_view() =~= Seq::<EnumView>::empty());
        assert(res.types.deep_view() =~= Seq::<TypeView>::empty());
        assert(res.unions.deep_view() =~= Seq::<StructView>::empty());
        assert(res.consts.deep_view() =~= Seq::<ConstView>::empty());
        res
    }
}

/// Whether a struct has the attribute `attrib`.
pub open spec fn spec_has_attribute(sdef: StructView, attrib: Seq<char>) -> bool {
    sdef.attributes.contains(attrib)
}

impl Struct {
    /// Whether the struct has the attribute `attrib`.
    pub fn has_attribute(&self, attrib: &str) -> (res: bool)
        ensures
            res == spec_has_attribute(self@, attrib@),
    {
        let n = self.attributes.len();
        let mut i: usize = 0;
        while i < n
            invariant
                i <= n,
                n == self.attributes@.len(),
                forall|k: int| 0 <= k < i ==> self@.attributes[k] != attrib@,
            decreases n - i,
        {
            if str_eq(self.attributes[i].as_str(), attrib) {
                assert(self@.attributes[i as int] == attrib@);
                return true;
            }
            i += 1;
        }
        false
    }
}

/// The arguments among `args` that have a default value, in order.
pub open spec fn spec_default_args(args: Seq<VariableView>) -> Seq<VariableView>
    decreases args.len(),
{
    if args.len() == 0 {
        Seq::empty()
    } else if args.last().default_value.len() > 0 {
        spec_default_args(args.drop_last()).push(args.last())
    } else {
        spec_default_args(args.drop_last())
    }
}

impl Function {
    /// The arguments that have a default value, in order.
    pub fn get_default_args(&self) -> (args: Vec<&Variable>)
        ensures
            args.deep_view() == spec_default_args(self@.function_args),
    {
        let mut args: Vec<&Variable> = Vec::new();
        assert(args.deep_view() =~= Seq::<VariableView>::empty());
        let ghost all = self@.function_args;
        let n = self.function_args.len();
        let mut i: usize = 0;
        while i < n
            invariant
                i <= n,
                n == self.function_args@.len(),
                all == self@.function_args,
                args.deep_view() == spec_default_args(all.take(i as int)),
            decreases n - i,
        {
            let arg = &self.function_args[i];
            let ghost before = args.deep_view();
            assert(all.take(i + 1).drop_last() =~= all.take(i as int));
            assert(all.take(i + 1).last() == arg@);
            if !arg.default_value.as_str().is_empty() {
                args.push(arg);
                assert(args.deep_view() =~= before.push(arg@));
            }
            i += 1;
        }
        assert(all.take(n as int) =~= all);
        args
    }

    /// Whether the function is static or manual.
    pub fn is_type_manual_static(&self) -> (res: bool)
        ensures
            res == (self.func_type == FunctionType::Static || self.func_type
                == FunctionType::Manual),
    {
        self.func_type == FunctionType::Static || self.func_type == FunctionType::Manual
    }

    /// Whether the function is manual.
    pub fn is_type_manual(&self) -> (res: bool)
        ensures
            res == (self.func_type == FunctionType::Manual),
    {
        self.func_type == FunctionType::Manual
    }

    /// Whether the function is static.
    pub fn is_type_static(&self) -> (res: bool)
        ensures
            res == (self.func_type == FunctionType::Static),
    {
        self.func_type == FunctionType::Static
    }
}

} // verus!
