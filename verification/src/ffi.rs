//! Rendering of variables for a Rust FFI layer, with pointers marked as mutable or
//! constant.

use vstd::prelude::*;
use vstd::string::StringExecFns;
use std::borrow::Cow;
use crate::model::{ArrayType, ArrayTypeView, TypeModifier, Variable, VariableType, VariableView};
use crate::text::str_eq;

verus! {

/// The Rust spelling of the primitive type `name`: `c_void` for `void`, the name
/// itself otherwise.
pub open spec fn spec_primitive_type(name: Seq<char>) -> Seq<char> {
    if name == "void"@ {
        "c_void"@
    } else {
        name
    }
}

/// The FFI type of a variable without modifier and array.
pub open spec fn spec_ffi_base(var: VariableView, self_type: Seq<char>) -> Seq<char> {
    match var.vtype {
        VariableType::NoType => "c_void"@,
        VariableType::SelfType => "*mut "@ + self_type,
        VariableType::Regular => var.vtype_name,
        VariableType::Enum => var.vtype_name,
        VariableType::Str => "*const c_char"@,
        VariableType::Primitive => spec_primitive_type(var.vtype_name),
    }
}

/// The FFI type of a variable: a constant pointer for a const pointer or a reference,
/// a mutable pointer for a pointer; for an unsized array a constant pointer and, as a
/// second parameter, its size; for a sized array an array of that size.
pub open spec fn spec_ffi_type(var: VariableView, self_type: Seq<char>) -> Seq<char> {
    let base = spec_ffi_base(var, self_type);
    match var.array {
        None => match var.type_modifier {
            TypeModifier::ConstPointer => "*const "@ + base,
            TypeModifier::MutPointer => "*mut "@ + base,
            TypeModifier::Reference => "*const "@ + base,
            TypeModifier::NoModifier => base,
        },
        Some(ArrayTypeView::Unsized) => "*const "@ + base + ", "@ + var.name + "_size: u64"@,
        Some(ArrayTypeView::SizedArray(size)) => "["@ + base + "; "@ + size + "]"@,
    }
}

impl Variable {
    /// The Rust spelling of the variable's type, taken as a primitive type.
    pub fn get_primitive_type(&self) -> (res: Cow<'_, str>)
        ensures
            res@ == spec_primitive_type(self.vtype_name@),
    {
        let tname = self.vtype_name.as_str();
        if str_eq(tname, "void") {
            Cow::Borrowed("c_void")
        } else {
            Cow::Borrowed(tname)
        }
    }

    /// The FFI type of the variable. `self_type` is the name of the type that owns
    /// the function, for the receiver.
    pub fn get_ffi_type(&self, self_type: &str) -> (res: String)
        ensures
            res@ == spec_ffi_type(self@, self_type@),
    {
        let mut output = String::new();
        match self.vtype {
            VariableType::NoType => output.append("c_void"),
            VariableType::SelfType => {
                output.append("*mut ");
                output.append(self_type);
            },
            VariableType::Regular => output.append(self.vtype_name.as_str()),
            VariableType::Enum => output.append(self.vtype_name.as_str()),
            VariableType::Str => output.append("*const c_char"),
            VariableType::Primitive => {
                match self.get_primitive_type() {
                    Cow::Borrowed(spelling) => output.append(spelling),
                    Cow::Owned(spelling) => output.append(spelling.as_str()),
                }
            },
        }
        assert(output@ =~= spec_ffi_base(self@, self_type@));
        match &self.array {
            None => match self.type_modifier {
                TypeModifier::ConstPointer => String::from_str("*const ").concat(output.as_str()),
                TypeModifier::MutPointer => String::from_str("*mut ").concat(output.as_str()),
                TypeModifier::Reference => String::from_str("*const ").concat(output.as_str()),
                TypeModifier::NoModifier => output,
            },
            Some(ArrayType::Unsized) => {
                let mut res = String::from_str("*const ");
                res.append(output.as_str());
                res.append(", ");
                res.append(self.name.as_str());
                res.append("_size: u64");
                res
            },
            Some(ArrayType::SizedArray(size)) => {
                let mut res = String::from_str("[");
                res.append(output.as_str());
                res.append("; ");
                res.append(size.as_str());
                res.append("]");
                res
            },
        }
    }
}

} // verus!
