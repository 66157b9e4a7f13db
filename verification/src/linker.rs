//! The pass over all parsed files: global tables of the names of structs and enums,
//! and the upgrade of function arguments whose type is an enum.

use vstd::prelude::*;
use vstd::hash_map::StringHashMap;
use vstd::hash_set::StringHashSet;
use vstd::string::StringExecFns;
use crate::api_parser::ApiParser;
use crate::model::{
    spec_has_attribute, ApiDef, ApiDefView, Enum, EnumType, EnumView, Function, FunctionView,
    Struct, StructView, VariableType, VariableView,
};

verus! {

/// Whether a struct is a pure marker type: it has no fields and is no handle.
pub open spec fn is_marker(sdef: StructView) -> bool {
    sdef.variables.len() == 0 && !spec_has_attribute(sdef, "Handle"@)
}

/// `table` with the structs from `i` on: each under its name and under its name with
/// `Trait` behind it, with the file it comes from.
pub open spec fn types_from(structs: Seq<StructView>, i: int, table: Map<Seq<char>, Seq<char>>) -> Map<
    Seq<char>,
    Seq<char>,
>
    decreases structs.len() - i,
{
    if i < 0 || i >= structs.len() {
        table
    } else {
        types_from(
            structs,
            i + 1,
            table.insert(structs[i].name, structs[i].def_file).insert(
                structs[i].name + "Trait"@,
                structs[i].def_file,
            ),
        )
    }
}

/// `set` with the names of the marker types among the structs from `i` on.
pub open spec fn markers_from(structs: Seq<StructView>, i: int, set: Set<Seq<char>>) -> Set<
    Seq<char>,
>
    decreases structs.len() - i,
{
    if i < 0 || i >= structs.len() {
        set
    } else if is_marker(structs[i]) {
        markers_from(structs, i + 1, set.insert(structs[i].name))
    } else {
        markers_from(structs, i + 1, set)
    }
}

/// `table` with one enum: under its name with its representation, and under its
/// flags name, where it has one, as a set of flags.
pub open spec fn with_enum(table: Map<Seq<char>, (Seq<char>, EnumType)>, enum_def: EnumView) -> Map<
    Seq<char>,
    (Seq<char>, EnumType),
> {
    let named = table.insert(enum_def.name, (enum_def.def_file, enum_def.enum_type));
    if enum_def.flags_name.len() > 0 {
        named.insert(enum_def.flags_name, (enum_def.def_file, EnumType::Bitflags))
    } else {
        named
    }
}

/// `table` with the enums from `i` on.
pub open spec fn enums_from(enums: Seq<EnumView>, i: int, table: Map<Seq<char>, (Seq<char>, EnumType)>) -> Map<
    Seq<char>,
    (Seq<char>, EnumType),
>
    decreases enums.len() - i,
{
    if i < 0 || i >= enums.len() {
        table
    } else {
        enums_from(enums, i + 1, with_enum(table, enums[i]))
    }
}

/// The tables of the names that a set of files declares.
pub struct Tables {
    /// The file of every struct, under the struct's name and its trait's name.
    pub types: Map<Seq<char>, Seq<char>>,
    /// File and representation of every enum, under its name and its flags name.
    pub enums: Map<Seq<char>, (Seq<char>, EnumType)>,
    /// The names of the structs that are pure marker types.
    pub markers: Set<Seq<char>>,
}

/// `tables` with the declarations of the files from `i` on. Where a name is declared
/// twice, the later declaration stays.
pub open spec fn tables_from(defs: Seq<ApiDefView>, i: int, tables: Tables) -> Tables
    decreases defs.len() - i,
{
    if i < 0 || i >= defs.len() {
        tables
    } else {
        tables_from(
            defs,
            i + 1,
            Tables {
                types: types_from(defs[i].structs, 0, tables.types),
                enums: enums_from(defs[i].enums, 0, tables.enums),
                markers: markers_from(defs[i].structs, 0, tables.markers),
            },
        )
    }
}

/// The tables of `defs`.
pub open spec fn spec_tables(defs: Seq<ApiDefView>) -> Tables {
    tables_from(defs, 0, Tables { types: Map::empty(), enums: Map::empty(), markers: Set::empty() })
}

/// A variable with its classification upgraded to enum where its type is one of
/// `enums`.
pub open spec fn link_variable(var: VariableView, enums: Set<Seq<char>>) -> VariableView {
    if enums.contains(var.vtype_name) {
        VariableView { vtype: VariableType::Enum, ..var }
    } else {
        var
    }
}

/// A function with every argument linked.
pub open spec fn link_function(function: FunctionView, enums: Set<Seq<char>>) -> FunctionView {
    FunctionView {
        function_args: Seq::new(
            function.function_args.len(),
            |i: int| link_variable(function.function_args[i], enums),
        ),
        ..function
    }
}

/// A struct with every function linked; its fields stay as they are.
pub open spec fn link_struct(sdef: StructView, enums: Set<Seq<char>>) -> StructView {
    StructView {
        functions: Seq::new(sdef.functions.len(), |i: int| link_function(sdef.functions[i], enums)),
        ..sdef
    }
}

/// A file with every struct linked; unions and callbacks stay as they are.
pub open spec fn link_def(def: ApiDefView, enums: Set<Seq<char>>) -> ApiDefView {
    ApiDefView {
        structs: Seq::new(def.structs.len(), |i: int| link_struct(def.structs[i], enums)),
        ..def
    }
}

/// The files, each linked against the enums that all of them declare.
pub open spec fn linked(defs: Seq<ApiDefView>) -> Seq<ApiDefView> {
    Seq::new(defs.len(), |i: int| link_def(defs[i], spec_tables(defs).enums.dom()))
}

/// The tables depend on the structs and enums of the files alone.
pub proof fn lemma_tables_same(a: Seq<ApiDefView>, b: Seq<ApiDefView>, i: int, tables: Tables)
    requires
        a.len() == b.len(),
        forall|k: int| 0 <= k < a.len() ==> (#[trigger] a[k]).enums == b[k].enums,
    ensures
        tables_from(a, i, tables).enums == tables_from(b, i, tables).enums,
    decreases a.len() - i,
{
    if 0 <= i < a.len() {
        let next_a = Tables {
            types: types_from(a[i].structs, 0, tables.types),
            enums: enums_from(a[i].enums, 0, tables.enums),
            markers: markers_from(a[i].structs, 0, tables.markers),
        };
        let next_b = Tables {
            types: types_from(b[i].structs, 0, tables.types),
            enums: enums_from(b[i].enums, 0, tables.enums),
            markers: markers_from(b[i].structs, 0, tables.markers),
        };
        lemma_enums_only(a, i + 1, next_a, next_b);
        lemma_tables_same(a, b, i + 1, next_b);
    }
}

/// The table of enums does not depend on the other tables.
pub proof fn lemma_enums_only(defs: Seq<ApiDefView>, i: int, x: Tables, y: Tables)
    requires
        x.enums == y.enums,
    ensures
        tables_from(defs, i, x).enums == tables_from(defs, i, y).enums,
    decreases defs.len() - i,
{
    if 0 <= i < defs.len() {
        lemma_enums_only(
            defs,
            i + 1,
            Tables {
                types: types_from(defs[i].structs, 0, x.types),
                enums: enums_from(defs[i].enums, 0, x.enums),
                markers: markers_from(defs[i].structs, 0, x.markers),
            },
            Tables {
                types: types_from(defs[i].structs, 0, y.types),
                enums: enums_from(defs[i].enums, 0, y.enums),
                markers: markers_from(defs[i].structs, 0, y.markers),
            },
        );
    }
}

/// Linking twice gives what linking once gives: an argument that is an enum already
/// stays one, and linking changes no enum.
pub proof fn lemma_link_idempotent(defs: Seq<ApiDefView>)
    ensures
        linked(linked(defs)) == linked(defs),
{
    let once = linked(defs);
    let start = Tables { types: Map::empty(), enums: Map::empty(), markers: Set::empty() };
    lemma_tables_same(once, defs, 0, start);
    let enums = spec_tables(defs).enums.dom();
    assert(spec_tables(once).enums.dom() == enums);
    assert forall|i: int| 0 <= i < defs.len() implies #[trigger] link_def(once[i], enums)
        == once[i] by {
        let def = defs[i];
        assert forall|j: int| 0 <= j < def.structs.len() implies #[trigger] link_struct(
            once[i].structs[j],
            enums,
        ) == once[i].structs[j] by {
            let sdef = def.structs[j];
            assert forall|k: int| 0 <= k < sdef.functions.len() implies #[trigger] link_function(
                once[i].structs[j].functions[k],
                enums,
            ) == once[i].structs[j].functions[k] by {
                let function = once[i].structs[j].functions[k];
                assert(link_function(function, enums).function_args =~= function.function_args);
            }
            assert(link_struct(once[i].structs[j], enums).functions
                =~= once[i].structs[j].functions);
        }
        assert(link_def(once[i], enums).structs =~= once[i].structs);
    }
    assert(linked(once) =~= once);
}

/// The tables of the names that a set of files declares.
pub struct LinkTables {
    /// The file of every struct, under the struct's name and its trait's name.
    pub type_def_file: StringHashMap<String>,
    /// File and representation of every enum, under its name and its flags name.
    pub enum_def_file_type: StringHashMap<(String, EnumType)>,
    /// The names of the structs that are pure marker types.
    pub empty_structs: StringHashSet,
}

impl View for LinkTables {
    type V = Tables;

    open spec fn view(&self) -> Tables {
        Tables {
            types: self.type_def_file@.map_values(|file: String| file@),
            enums: self.enum_def_file_type@.map_values(|entry: (String, EnumType)| (entry.0@, entry.1)),
            markers: self.empty_structs@,
        }
    }
}

impl LinkTables {
    /// No names.
    pub fn new() -> (tables: LinkTables)
        ensures
            tables@ == (Tables { types: Map::empty(), enums: Map::empty(), markers: Set::empty() }),
    {
        let tables = LinkTables {
            type_def_file: StringHashMap::new(),
            enum_def_file_type: StringHashMap::new(),
            empty_structs: StringHashSet::new(),
        };
        assert(tables@.types =~= Map::empty());
        assert(tables@.enums =~= Map::empty());
        tables
    }

    /// Adds the structs of a file.
    fn add_structs(&mut self, structs: &Vec<Struct>)
        ensures
            final(self)@ == (Tables {
                types: types_from(structs.deep_view(), 0, old(self)@.types),
                markers: markers_from(structs.deep_view(), 0, old(self)@.markers),
                ..old(self)@
            }),
    {
        let ghost all = structs.deep_view();
        let n = structs.len();
        let mut i: usize = 0;
        while i < n
            invariant
                i <= n,
                n == structs@.len(),
                all == structs.deep_view(),
                self@.enums == old(self)@.enums,
                types_from(all, i as int, self@.types) == types_from(all, 0, old(self)@.types),
                markers_from(all, i as int, self@.markers) == markers_from(
                    all,
                    0,
                    old(self)@.markers,
                ),
            decreases n - i,
        {
            let s = &structs[i];
            let ghost before = self@;
            if s.variables.len() == 0 && !s.has_attribute("Handle") {
                self.empty_structs.insert(s.name.clone());
            }
            self.type_def_file.insert(s.name.clone(), s.def_file.clone());
            let mut trait_name = s.name.clone();
            trait_name.append("Trait");
            self.type_def_file.insert(trait_name, s.def_file.clone());
            assert(self@.types =~= before.types.insert(s@.name, s@.def_file).insert(
                s@.name + "Trait"@,
                s@.def_file,
            ));
            assert(self@.enums =~= before.enums);
            i += 1;
        }
    }

    /// Adds the enums of a file.
    fn add_enums(&mut self, enums: &Vec<Enum>)
        ensures
            final(self)@ == (Tables {
                enums: enums_from(enums.deep_view(), 0, old(self)@.enums),
                ..old(self)@
            }),
    {
        let ghost all = enums.deep_view();
        let n = enums.len();
        let mut i: usize = 0;
        while i < n
            invariant
                i <= n,
                n == enums@.len(),
                all == enums.deep_view(),
                self@.types == old(self)@.types,
                self@.markers == old(self)@.markers,
                enums_from(all, i as int, self@.enums) == enums_from(all, 0, old(self)@.enums),
            decreases n - i,
        {
            let e = &enums[i];
            let ghost before = self@;
            self.enum_def_file_type.insert(e.name.clone(), (e.def_file.clone(), e.enum_type));
            if e.flags_name.as_str().unicode_len() > 0 {
                self.enum_def_file_type.insert(
                    e.flags_name.clone(),
                    (e.def_file.clone(), EnumType::Bitflags),
                );
            }
            assert(self@.enums =~= with_enum(before.enums, e@));
            assert(self@.types =~= before.types);
            i += 1;
        }
    }
}

/// Upgrades the arguments of `function` whose type is an enum of `tables`.
fn link_args(function: &mut Function, tables: &LinkTables)
    ensures
        final(function)@ == link_function(old(function)@, tables@.enums.dom()),
{
    let ghost enums = tables@.enums.dom();
    let n = function.function_args.len();
    let mut i: usize = 0;
    while i < n
        invariant
            i <= n,
            n == function.function_args@.len(),
            n == old(function).function_args@.len(),
            enums == tables@.enums.dom(),
            function.doc_comments == old(function).doc_comments,
            function.def_file == old(function).def_file,
            function.name == old(function).name,
            function.return_val == old(function).return_val,
            function.func_type == old(function).func_type,
            forall|k: int|
                0 <= k < i ==> (#[trigger] function.function_args@[k])@ == link_variable(
                    old(function).function_args@[k]@,
                    enums,
                ),
            forall|k: int|
                i <= k < n ==> #[trigger] function.function_args@[k] == old(
                    function,
                ).function_args@[k],
        decreases n - i,
    {
        if tables.enum_def_file_type.contains_key(function.function_args[i].vtype_name.as_str()) {
            function.function_args[i].vtype = VariableType::Enum;
        }
        i += 1;
    }
    assert(function@.function_args =~= link_function(old(function)@, enums).function_args);
}

/// Upgrades the arguments of the functions of `sdef`.
fn link_functions(sdef: &mut Struct, tables: &LinkTables)
    ensures
        final(sdef)@ == link_struct(old(sdef)@, tables@.enums.dom()),
{
    let ghost enums = tables@.enums.dom();
    let n = sdef.functions.len();
    let mut i: usize = 0;
    while i < n
        invariant
            i <= n,
            n == sdef.functions@.len(),
            n == old(sdef).functions@.len(),
            enums == tables@.enums.dom(),
            sdef.doc_comments == old(sdef).doc_comments,
            sdef.name == old(sdef).name,
            sdef.def_file == old(sdef).def_file,
            sdef.variables == old(sdef).variables,
            sdef.attributes == old(sdef).attributes,
            sdef.traits == old(sdef).traits,
            sdef.derives == old(sdef).derives,
            forall|k: int|
                0 <= k < i ==> (#[trigger] sdef.functions@[k])@ == link_function(
                    old(sdef).functions@[k]@,
                    enums,
                ),
            forall|k: int| i <= k < n ==> #[trigger] sdef.functions@[k] == old(sdef).functions@[k],
        decreases n - i,
    {
        link_args(&mut sdef.functions[i], tables);
        i += 1;
    }
    assert(sdef@.functions =~= link_struct(old(sdef)@, enums).functions);
}

/// Upgrades the arguments of the functions of the structs of `def`.
fn link_structs(def: &mut ApiDef, tables: &LinkTables)
    ensures
        final(def)@ == link_def(old(def)@, tables@.enums.dom()),
{
    let ghost enums = tables@.enums.dom();
    let n = def.structs.len();
    let mut i: usize = 0;
    while i < n
        invariant
            i <= n,
            n == def.structs@.len(),
            n == old(def).structs@.len(),
            enums == tables@.enums.dom(),
            def.filename == old(def).filename,
            def.base_filename == old(def).base_filename,
            def.mods == old(def).mods,
            def.callbacks == old(def).callbacks,
            def.enums == old(def).enums,
            def.types == old(def).types,
            def.unions == old(def).unions,
            def.consts == old(def).consts,
            forall|k: int|
                0 <= k < i ==> (#[trigger] def.structs@[k])@ == link_struct(
                    old(def).structs@[k]@,
                    enums,
                ),
            forall|k: int| i <= k < n ==> #[trigger] def.structs@[k] == old(def).structs@[k],
        decreases n - i,
    {
        link_functions(&mut def.structs[i], tables);
        i += 1;
    }
    assert(def@.structs =~= link_def(old(def)@, enums).structs);
}

impl ApiParser {
    /// The tables of the names that `api_defs` declare.
    pub fn build_tables(api_defs: &[ApiDef]) -> (tables: LinkTables)
        ensures
            tables@ == spec_tables(api_defs.deep_view()),
    {
        let ghost all = api_defs.deep_view();
        let mut tables = LinkTables::new();
        let n = api_defs.len();
        let mut i: usize = 0;
        while i < n
            invariant
                i <= n,
                n == api_defs@.len(),
                all == api_defs.deep_view(),
                tables_from(all, i as int, tables@) == spec_tables(all),
            decreases n - i,
        {
            tables.add_structs(&api_defs[i].structs);
            tables.add_enums(&api_defs[i].enums);
            i += 1;
        }
        tables
    }

    /// Links the files against each other: every argument of a function of a struct
    /// whose type is the name or the flags name of an enum of any of the files is
    /// classified as an enum. Nothing else changes.
    pub fn second_pass(api_defs: &mut [ApiDef])
        ensures
            final(api_defs).deep_view() == linked(old(api_defs).deep_view()),
    {
        let tables = Self::build_tables(api_defs);
        let ghost before = api_defs.deep_view();
        let ghost enums = tables@.enums.dom();
        let n = api_defs.len();
        let mut i: usize = 0;
        while i < n
            invariant
                i <= n,
                n == api_defs@.len(),
                n == old(api_defs)@.len(),
                before == old(api_defs).deep_view(),
                enums == tables@.enums.dom(),
                enums == spec_tables(before).enums.dom(),
                forall|k: int|
                    0 <= k < i ==> (#[trigger] api_defs@[k])@ == link_def(old(api_defs)@[k]@, enums),
                forall|k: int| i <= k < n ==> #[trigger] api_defs@[k] == old(api_defs)@[k],
            decreases n - i,
        {
            link_structs(&mut api_defs[i], &tables);
            i += 1;
        }
        assert(api_defs.deep_view() =~= linked(before));
    }
}

} // verus!
