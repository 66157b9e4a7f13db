//! The entry point: from the text of a definition file to what it declares.

use vstd::prelude::*;
use crate::declarations::{
    entry_values, is_missing_value, lemma_callback, lemma_entries_assigned, lemma_entries_errors,
    push_deep, result_view, spec_callback, spec_field_list_enum, spec_struct_of, with_doc,
};
use crate::enums::{all_assigned, enum_type_of};
use crate::error::{spec_syntax_error, syntax_error, ApigenError, ApigenErrorView};
use crate::grammar::{spec_file, Step};
use crate::model::{
    ApiDef, ApiDefView, Const, ConstView, Enum, EnumEntry, EnumEntryView, EnumType, EnumView,
    FunctionType, FunctionView, StructView, Type, TypeView, VariableView,
};
use crate::parser::parse;
use crate::resolver::{
    first_child_text, inner_text, last_text, last_text_of, no_receiver, spec_variable,
};
use crate::text::{clone_lines, no_lines, push_line, strip_marker, to_chars};
use crate::tree::{forest, lemma_children, lemma_forest, Node, Rule, Tree};

verus! {

/// The parser of definition files. Its functions turn text into a syntax tree and the
/// tree into the declarations of the file.
#[derive(Debug)]
pub struct ApiParser;

/// `error` with `name` as the enum it speaks of.
pub open spec fn named(error: ApigenErrorView, name: Seq<char>) -> ApigenErrorView {
    match error {
        ApigenErrorView::MissingRequiredField { enum_name, entry } => {
            ApigenErrorView::MissingRequiredField { enum_name: name, entry }
        },
        other => other,
    }
}

/// What the scan of an enum's node has found so far.
pub struct EnumScan {
    pub flags_name: Seq<char>,
    pub entries: Seq<EnumEntryView>,
    /// The first error.
    pub error: Option<ApigenErrorView>,
}

/// One step of the scan of an enum's node: nothing behind an error; a field list sets
/// the entries; a flags clause sets the second name to the text of its first child.
pub open spec fn enum_step(scan: EnumScan, child: Tree) -> EnumScan {
    if scan.error is Some {
        scan
    } else if child.rule == Rule::Fieldlist {
        match spec_field_list_enum(child) {
            Ok(entries) => EnumScan { entries, ..scan },
            Err(error) => EnumScan { error: Some(error), ..scan },
        }
    } else if child.rule == Rule::EnumFlags {
        EnumScan { flags_name: inner_text(child), ..scan }
    } else {
        scan
    }
}

/// The scan of the children of an enum's node from `i` on.
pub open spec fn scan_enum(children: Seq<Tree>, i: int, scan: EnumScan) -> EnumScan
    decreases children.len() - i,
{
    if i < 0 || i >= children.len() {
        scan
    } else {
        scan_enum(children, i + 1, enum_step(scan, children[i]))
    }
}

/// Behind an error the scan of an enum's node changes nothing.
pub proof fn lemma_enum_error_stays(children: Seq<Tree>, i: int, scan: EnumScan)
    requires
        scan.error is Some,
    ensures
        scan_enum(children, i, scan) == scan,
    decreases children.len() - i,
{
    if 0 <= i < children.len() {
        lemma_enum_error_stays(children, i + 1, scan);
    }
}

/// The scan of an enum's node ends without an error only with entries that all have
/// a value.
proof fn lemma_scan_enum_assigned(children: Seq<Tree>, i: int, scan: EnumScan)
    requires
        scan.error is None ==> all_assigned(entry_values(scan.entries)),
    ensures
        scan_enum(children, i, scan).error is None ==> all_assigned(
            entry_values(scan_enum(children, i, scan).entries),
        ),
    decreases children.len() - i,
{
    if 0 <= i < children.len() {
        lemma_entries_assigned(children[i]);
        lemma_scan_enum_assigned(children, i + 1, enum_step(scan, children[i]));
    }
}

/// Every entry of an enum has a value: none is left unassigned.
pub proof fn lemma_enum_assigned(node: Tree, docs: Seq<Seq<char>>, def_file: Seq<char>)
    ensures
        spec_enum_of(node, docs, def_file) matches Ok(enum_def) ==> all_assigned(
            entry_values(enum_def.entries),
        ),
{
    lemma_scan_enum_assigned(
        node.children,
        0,
        EnumScan { flags_name: Seq::empty(), entries: Seq::empty(), error: None },
    );
}

/// The enum that a node states, with `def_file` as the file it comes from: its name
/// is the text of its last name; its
/// representation follows from the values of its entries. An error, which names the
/// enum, where an entry cannot get its value.
pub open spec fn spec_enum_of(node: Tree, docs: Seq<Seq<char>>, def_file: Seq<char>) -> Result<
    EnumView,
    ApigenErrorView,
> {
    let name = last_text_of(node.children, 0, Rule::Name, Rule::Name, Seq::empty());
    let scan = scan_enum(
        node.children,
        0,
        EnumScan { flags_name: Seq::empty(), entries: Seq::empty(), error: None },
    );
    match scan.error {
        Some(error) => Err(named(error, name)),
        None => Ok(
            EnumView {
                doc_comments: docs,
                name,
                def_file,
                enum_type: enum_type_of(entry_values(scan.entries)),
                flags_name: scan.flags_name,
                entries: scan.entries,
            },
        ),
    }
}

/// The constant that a node states: its name is the text of its last name, its value
/// the text of its last literal.
pub open spec fn spec_const_of(node: Tree, docs: Seq<Seq<char>>) -> ConstView {
    ConstView {
        doc_comments: docs,
        name: last_text_of(node.children, 0, Rule::Name, Rule::Name, Seq::empty()),
        value: last_text_of(node.children, 0, Rule::NameOrNum, Rule::RawString, Seq::empty()),
    }
}

/// The variable of the last variable node among `children` from `i` on; `found` where
/// there is none.
pub open spec fn scan_type(children: Seq<Tree>, i: int, docs: Seq<Seq<char>>, found: VariableView) -> VariableView
    decreases children.len() - i,
{
    if i < 0 || i >= children.len() {
        found
    } else if children[i].rule == Rule::Var {
        scan_type(children, i + 1, docs, spec_variable(children[i], docs))
    } else {
        scan_type(children, i + 1, docs, found)
    }
}

/// The type alias that a node states; the documentation goes to its variable.
pub open spec fn spec_type_of(node: Tree, docs: Seq<Seq<char>>) -> TypeView {
    TypeView {
        doc_comments: Seq::empty(),
        var: scan_type(node.children, 0, docs, VariableView::empty()),
    }
}

/// The texts of the names among `children` from `i` on, behind `acc`.
pub open spec fn name_texts(children: Seq<Tree>, i: int, acc: Seq<Seq<char>>) -> Seq<Seq<char>>
    decreases children.len() - i,
{
    if i < 0 || i >= children.len() {
        acc
    } else if children[i].rule == Rule::Name {
        name_texts(children, i + 1, acc.push(children[i].text))
    } else {
        name_texts(children, i + 1, acc)
    }
}

/// What the walk over the chunks of a file has built so far.
pub struct BuildScan {
    pub def: ApiDefView,
    /// The documentation that waits for the next declaration.
    pub docs: Seq<Seq<char>>,
    /// The first error.
    pub error: Option<ApigenErrorView>,
}

/// One step of the walk over the chunks of a file: nothing behind an error; a
/// documentation comment waits for the next declaration; a module reference adds its
/// names and leaves the documentation waiting; every other declaration is added to
/// its collection with the documentation that waited. Structs, unions and enums come
/// from the file under its base name; a callback is static, whatever its marks.
pub open spec fn chunk_step(scan: BuildScan, chunk: Tree) -> BuildScan {
    let def = scan.def;
    let taken = BuildScan { docs: Seq::empty(), ..scan };
    if scan.error is Some {
        scan
    } else {
        match chunk.rule {
            Rule::DocComment => BuildScan { docs: with_doc(scan.docs, chunk.text), ..scan },
            Rule::ModDef => BuildScan {
                def: ApiDefView { mods: name_texts(chunk.children, 0, def.mods), ..def },
                ..scan
            },
            Rule::StructDef => BuildScan {
                def: ApiDefView {
                    structs: def.structs.push(spec_struct_of(chunk, scan.docs, def.base_filename)),
                    ..def
                },
                ..taken
            },
            Rule::UnionDef => BuildScan {
                def: ApiDefView {
                    unions: def.unions.push(spec_struct_of(chunk, scan.docs, def.base_filename)),
                    ..def
                },
                ..taken
            },
            Rule::CallbackDef => BuildScan {
                def: ApiDefView {
                    callbacks: def.callbacks.push(
                        FunctionView {
                            func_type: FunctionType::Static,
                            ..spec_callback(chunk, scan.docs)
                        },
                    ),
                    ..def
                },
                ..taken
            },
            Rule::TypeValue => BuildScan {
                def: ApiDefView { types: def.types.push(spec_type_of(chunk, scan.docs)), ..def },
                ..taken
            },
            Rule::ConstValue => BuildScan {
                def: ApiDefView { consts: def.consts.push(spec_const_of(chunk, scan.docs)), ..def },
                ..taken
            },
            Rule::EnumDef => match spec_enum_of(chunk, scan.docs, def.base_filename) {
                Ok(enum_def) => BuildScan {
                    def: ApiDefView { enums: def.enums.push(enum_def), ..def },
                    ..taken
                },
                Err(error) => BuildScan { error: Some(error), ..scan },
            },
            _ => scan,
        }
    }
}

/// The walk over `chunks` from `i` on.
pub open spec fn scan_chunks(chunks: Seq<Tree>, i: int, scan: BuildScan) -> BuildScan
    decreases chunks.len() - i,
{
    if i < 0 || i >= chunks.len() {
        scan
    } else {
        scan_chunks(chunks, i + 1, chunk_step(scan, chunks[i]))
    }
}

/// Behind an error the walk over the chunks changes nothing.
pub proof fn lemma_build_error_stays(chunks: Seq<Tree>, i: int, scan: BuildScan)
    requires
        scan.error is Some,
    ensures
        scan_chunks(chunks, i, scan) == scan,
    decreases chunks.len() - i,
{
    if 0 <= i < chunks.len() {
        lemma_build_error_stays(chunks, i + 1, scan);
    }
}

/// Whether every entry of every enum of a file has a value.
pub open spec fn enums_assigned(def: ApiDefView) -> bool {
    forall|i: int|
        0 <= i < def.enums.len() ==> all_assigned(entry_values((#[trigger] def.enums[i]).entries))
}

/// The walk over the chunks adds only enums whose entries all have a value.
proof fn lemma_scan_chunks_assigned(chunks: Seq<Tree>, i: int, scan: BuildScan)
    requires
        enums_assigned(scan.def),
    ensures
        enums_assigned(scan_chunks(chunks, i, scan).def),
    decreases chunks.len() - i,
{
    if 0 <= i < chunks.len() {
        lemma_enum_assigned(chunks[i], scan.docs, scan.def.base_filename);
        lemma_scan_chunks_assigned(chunks, i + 1, chunk_step(scan, chunks[i]));
    }
}

/// In what a file declares, every entry of every enum has a value: none is left
/// unassigned.
pub proof fn lemma_build_assigned(chunks: Seq<Tree>, filename: Seq<char>, stem: Option<Seq<char>>)
    ensures
        spec_build(chunks, filename, stem) matches Ok(def) ==> enums_assigned(def),
{
    lemma_scan_chunks_assigned(
        chunks,
        0,
        BuildScan { def: named_file(filename, stem), docs: Seq::empty(), error: None },
    );
}

/// The scan of an enum's node fails only for an entry that cannot get a value.
proof fn lemma_scan_enum_errors(children: Seq<Tree>, i: int, scan: EnumScan)
    requires
        is_missing_value(scan.error),
    ensures
        is_missing_value(scan_enum(children, i, scan).error),
    decreases children.len() - i,
{
    if 0 <= i < children.len() {
        lemma_entries_errors(children[i]);
        lemma_scan_enum_errors(children, i + 1, enum_step(scan, children[i]));
    }
}

/// The walk over the chunks fails only for an entry of an enum that cannot get a value.
proof fn lemma_scan_chunks_errors(chunks: Seq<Tree>, i: int, scan: BuildScan)
    requires
        is_missing_value(scan.error),
    ensures
        is_missing_value(scan_chunks(chunks, i, scan).error),
    decreases chunks.len() - i,
{
    if 0 <= i < chunks.len() {
        lemma_scan_enum_errors(
            chunks[i].children,
            0,
            EnumScan { flags_name: Seq::empty(), entries: Seq::empty(), error: None },
        );
        lemma_scan_chunks_errors(chunks, i + 1, chunk_step(scan, chunks[i]));
    }
}

/// The chunks of a file fail to build only for an entry of an enum that cannot get a
/// value; a syntax error comes from the text alone.
pub proof fn lemma_build_errors(chunks: Seq<Tree>, filename: Seq<char>, stem: Option<Seq<char>>)
    ensures
        spec_build(chunks, filename, stem) matches Err(error) ==> error is MissingRequiredField,
{
    lemma_scan_chunks_errors(
        chunks,
        0,
        BuildScan { def: named_file(filename, stem), docs: Seq::empty(), error: None },
    );
}

/// Whether a chunk of `rule` is a declaration that takes the waiting documentation.
pub open spec fn takes_docs(rule: Rule) -> bool {
    rule == Rule::StructDef || rule == Rule::UnionDef || rule == Rule::CallbackDef || rule
        == Rule::TypeValue || rule == Rule::ConstValue || rule == Rule::EnumDef
}

/// The documentation that waits behind the first `n` of `chunks`: the lines of the
/// documentation comments that stand behind the last declaration among them.
pub open spec fn waiting_docs(chunks: Seq<Tree>, n: int) -> Seq<Seq<char>>
    decreases n,
{
    if n <= 0 || n > chunks.len() {
        Seq::empty()
    } else if chunks[n - 1].rule == Rule::DocComment {
        with_doc(waiting_docs(chunks, n - 1), chunks[n - 1].text)
    } else if takes_docs(chunks[n - 1].rule) {
        Seq::empty()
    } else {
        waiting_docs(chunks, n - 1)
    }
}

/// The structs, or with `rule` the unions, among the first `n` of `chunks`, in their
/// order, each with the documentation that waited for it.
pub open spec fn structs_upto(chunks: Seq<Tree>, n: int, rule: Rule, def_file: Seq<char>) -> Seq<
    StructView,
>
    decreases n,
{
    if n <= 0 || n > chunks.len() {
        Seq::empty()
    } else if chunks[n - 1].rule == rule {
        structs_upto(chunks, n - 1, rule, def_file).push(
            spec_struct_of(chunks[n - 1], waiting_docs(chunks, n - 1), def_file),
        )
    } else {
        structs_upto(chunks, n - 1, rule, def_file)
    }
}

/// The callbacks among the first `n` of `chunks`, in their order.
pub open spec fn callbacks_upto(chunks: Seq<Tree>, n: int) -> Seq<FunctionView>
    decreases n,
{
    if n <= 0 || n > chunks.len() {
        Seq::empty()
    } else if chunks[n - 1].rule == Rule::CallbackDef {
        callbacks_upto(chunks, n - 1).push(
            FunctionView {
                func_type: FunctionType::Static,
                ..spec_callback(chunks[n - 1], waiting_docs(chunks, n - 1))
            },
        )
    } else {
        callbacks_upto(chunks, n - 1)
    }
}

/// The type aliases among the first `n` of `chunks`, in their order.
pub open spec fn types_upto(chunks: Seq<Tree>, n: int) -> Seq<TypeView>
    decreases n,
{
    if n <= 0 || n > chunks.len() {
        Seq::empty()
    } else if chunks[n - 1].rule == Rule::TypeValue {
        types_upto(chunks, n - 1).push(spec_type_of(chunks[n - 1], waiting_docs(chunks, n - 1)))
    } else {
        types_upto(chunks, n - 1)
    }
}

/// The constants among the first `n` of `chunks`, in their order.
pub open spec fn consts_upto(chunks: Seq<Tree>, n: int) -> Seq<ConstView>
    decreases n,
{
    if n <= 0 || n > chunks.len() {
        Seq::empty()
    } else if chunks[n - 1].rule == Rule::ConstValue {
        consts_upto(chunks, n - 1).push(spec_const_of(chunks[n - 1], waiting_docs(chunks, n - 1)))
    } else {
        consts_upto(chunks, n - 1)
    }
}

/// The enums among the first `n` of `chunks` whose entries all get a value, in their
/// order.
pub open spec fn enums_upto(chunks: Seq<Tree>, n: int, def_file: Seq<char>) -> Seq<EnumView>
    decreases n,
{
    if n <= 0 || n > chunks.len() {
        Seq::empty()
    } else if chunks[n - 1].rule == Rule::EnumDef {
        match spec_enum_of(chunks[n - 1], waiting_docs(chunks, n - 1), def_file) {
            Ok(enum_def) => enums_upto(chunks, n - 1, def_file).push(enum_def),
            Err(_) => enums_upto(chunks, n - 1, def_file),
        }
    } else {
        enums_upto(chunks, n - 1, def_file)
    }
}

/// The names of the module references among the first `n` of `chunks`, in their order.
pub open spec fn mods_upto(chunks: Seq<Tree>, n: int) -> Seq<Seq<char>>
    decreases n,
{
    if n <= 0 || n > chunks.len() {
        Seq::empty()
    } else if chunks[n - 1].rule == Rule::ModDef {
        name_texts(chunks[n - 1].children, 0, mods_upto(chunks, n - 1))
    } else {
        mods_upto(chunks, n - 1)
    }
}

/// The file `start` with the declarations of the first `n` of `chunks`.
pub open spec fn declared_upto(chunks: Seq<Tree>, n: int, start: ApiDefView) -> ApiDefView {
    ApiDefView {
        mods: mods_upto(chunks, n),
        callbacks: callbacks_upto(chunks, n),
        structs: structs_upto(chunks, n, Rule::StructDef, start.base_filename),
        enums: enums_upto(chunks, n, start.base_filename),
        types: types_upto(chunks, n),
        unions: structs_upto(chunks, n, Rule::UnionDef, start.base_filename),
        consts: consts_upto(chunks, n),
        ..start
    }
}

/// A walk over the chunks that ends without an error has declared every chunk in
/// its place.
proof fn lemma_scan_chunks_order(chunks: Seq<Tree>, i: int, scan: BuildScan, start: ApiDefView)
    requires
        0 <= i <= chunks.len(),
        scan.error is None,
        scan.docs == waiting_docs(chunks, i),
        scan.def == declared_upto(chunks, i, start),
    ensures
        scan_chunks(chunks, i, scan).error is None ==> scan_chunks(chunks, i, scan).def
            == declared_upto(chunks, chunks.len() as int, start),
    decreases chunks.len() - i,
{
    if i < chunks.len() {
        let next = chunk_step(scan, chunks[i]);
        if next.error is Some {
            lemma_build_error_stays(chunks, i + 1, next);
        } else {
            lemma_scan_chunks_order(chunks, i + 1, next, start);
        }
    }
}

/// The declarations of a file stand in the order of their chunks, each kind in its
/// collection, and the documentation of each is made of the documentation comments
/// that stand between it and the declaration before it; those behind the last
/// declaration are dropped.
pub proof fn lemma_declarations_in_order(chunks: Seq<Tree>, filename: Seq<char>, stem: Option<Seq<char>>)
    ensures
        spec_build(chunks, filename, stem) matches Ok(def) ==> def == declared_upto(
            chunks,
            chunks.len() as int,
            named_file(filename, stem),
        ),
{
    let start = named_file(filename, stem);
    assert(start == declared_upto(chunks, 0, start));
    lemma_scan_chunks_order(
        chunks,
        0,
        BuildScan { def: start, docs: Seq::empty(), error: None },
        start,
    );
}

/// Whether every callback of a file is static and has no receiver among its arguments.
pub open spec fn callbacks_static(def: ApiDefView) -> bool {
    forall|i: int|
        0 <= i < def.callbacks.len() ==> (#[trigger] def.callbacks[i]).func_type
            == FunctionType::Static && no_receiver(def.callbacks[i].function_args)
}

/// The walk over the chunks adds only callbacks that are static and have no receiver,
/// and leaves path and base name of the file as they are.
proof fn lemma_scan_chunks_callbacks(chunks: Seq<Tree>, i: int, scan: BuildScan)
    requires
        callbacks_static(scan.def),
    ensures
        callbacks_static(scan_chunks(chunks, i, scan).def),
        scan_chunks(chunks, i, scan).def.filename == scan.def.filename,
        scan_chunks(chunks, i, scan).def.base_filename == scan.def.base_filename,
    decreases chunks.len() - i,
{
    if 0 <= i < chunks.len() {
        lemma_callback(chunks[i], scan.docs);
        lemma_scan_chunks_callbacks(chunks, i + 1, chunk_step(scan, chunks[i]));
    }
}

/// In what a file declares, every callback is static and has exactly its declared
/// parameters as arguments: the receiver is not among them. Path and base name of the
/// file are those that the walk began with.
pub proof fn lemma_build_callbacks(chunks: Seq<Tree>, filename: Seq<char>, stem: Option<Seq<char>>)
    ensures
        spec_build(chunks, filename, stem) matches Ok(def) ==> callbacks_static(def)
            && def.filename == named_file(filename, stem).filename && def.base_filename
            == named_file(filename, stem).base_filename,
{
    lemma_scan_chunks_callbacks(
        chunks,
        0,
        BuildScan { def: named_file(filename, stem), docs: Seq::empty(), error: None },
    );
}

/// The file without declarations: it holds its full path, and its base name where
/// the path has one; the base name is empty where the path has none.
pub open spec fn named_file(filename: Seq<char>, stem: Option<Seq<char>>) -> ApiDefView {
    ApiDefView {
        filename,
        base_filename: match stem {
            Some(base) => base,
            None => Seq::empty(),
        },
        ..ApiDefView::empty()
    }
}

/// What the file `filename` declares where `chunks` are its chunks and `stem` is the
/// base name of its path; the first error where an enum entry cannot get its value.
/// Documentation comments behind the last declaration are dropped.
pub open spec fn spec_build(chunks: Seq<Tree>, filename: Seq<char>, stem: Option<Seq<char>>) -> Result<
    ApiDefView,
    ApigenErrorView,
> {
    let scan = scan_chunks(
        chunks,
        0,
        BuildScan { def: named_file(filename, stem), docs: Seq::empty(), error: None },
    );
    match scan.error {
        Some(error) => Err(error),
        None => Ok(scan.def),
    }
}

/// What the file `filename` with the text `text` declares where `stem` is the base
/// name of its path: a syntax error where the text leaves the grammar, else what its
/// chunks build.
pub open spec fn spec_parse(text: Seq<char>, filename: Seq<char>, stem: Option<Seq<char>>) -> Result<
    ApiDefView,
    ApigenErrorView,
> {
    match spec_file(text) {
        Step::Failed(offset, expected) => Err(spec_syntax_error(filename, text, offset, expected)),
        Step::Done(chunks, _) => spec_build(chunks, filename, stem),
    }
}

/// Errors and waiting documentation do not depend on what was declared before.
proof fn lemma_scan_chunks_outcome(chunks: Seq<Tree>, i: int, x: BuildScan, y: BuildScan)
    requires
        x.docs == y.docs,
        x.error == y.error,
    ensures
        scan_chunks(chunks, i, x).docs == scan_chunks(chunks, i, y).docs,
        scan_chunks(chunks, i, x).error == scan_chunks(chunks, i, y).error,
    decreases chunks.len() - i,
{
    if 0 <= i < chunks.len() {
        lemma_scan_chunks_outcome(chunks, i + 1, chunk_step(x, chunks[i]), chunk_step(y, chunks[i]));
    }
}

/// Whether a text can be read, and the error where it cannot, do not depend on the
/// base name of the file.
pub proof fn lemma_outcome_without_stem(text: Seq<char>, filename: Seq<char>, stem: Option<Seq<char>>)
    ensures
        spec_parse(text, filename, stem) is Ok <==> spec_parse(text, filename, None) is Ok,
        spec_parse(text, filename, stem) is Err ==> spec_parse(text, filename, stem) == spec_parse(
            text,
            filename,
            None,
        ),
{
    if let Step::Done(chunks, _) = spec_file(text) {
        lemma_scan_chunks_outcome(
            chunks,
            0,
            BuildScan { def: named_file(filename, stem), docs: Seq::empty(), error: None },
            BuildScan { def: named_file(filename, None), docs: Seq::empty(), error: None },
        );
    }
}

/// Whether `part` stands in `whole` as one piece.
pub open spec fn is_part_of(part: Seq<char>, whole: Seq<char>) -> bool {
    exists|i: int, j: int| 0 <= i <= j <= whole.len() && part == #[trigger] whole.subrange(i, j)
}

/// `Path::file_stem` of std on `filename`: the base name of the path without its
/// extension, or nothing where the path has no base name. Claimed of it: a stem that
/// it gives is a piece of `filename`, for std takes it from the path's last component
/// by cutting off the extension. Which piece it is, and whether there is one, depends
/// on the platform's path syntax, so no more is stated.
#[verifier::external_body]
fn file_stem(filename: &str) -> (stem: Option<String>)
    ensures
        stem matches Some(text) ==> is_part_of(text@, filename@),
{
    match std::path::Path::new(filename).file_stem() {
        Some(stem) => Some(stem.to_string_lossy().into_owned()),
        None => None,
    }
}

/// `error` with `name` as the enum it speaks of.
fn with_enum_name(error: ApigenError, name: String) -> (res: ApigenError)
    ensures
        res@ == named(error@, name@),
{
    match error {
        ApigenError::MissingRequiredField { enum_name, entry } => {
            ApigenError::MissingRequiredField { enum_name: name, entry }
        },
        other => other,
    }
}

impl ApiParser {
    /// The enum that `node` states, with `doc_comments` as its documentation and
    /// `def_file` as the file it comes from.
    pub fn fill_enum(node: &Node, doc_comments: &Vec<String>, def_file: &str) -> (res: Result<
        Enum,
        ApigenError,
    >)
        ensures
            result_view(res) == spec_enum_of(node@, doc_comments.deep_view(), def_file@),
    {
        proof {
            lemma_children(node);
        }
        let name = last_text(node, Rule::Name, Rule::Name);
        let mut flags_name = String::new();
        let mut entries: Vec<EnumEntry> = Vec::new();
        assert(entries.deep_view() =~= Seq::<EnumEntryView>::empty());
        let ghost start = EnumScan { flags_name: Seq::empty(), entries: Seq::empty(), error: None };
        let n = node.children.len();
        let mut i: usize = 0;
        while i < n
            invariant
                i <= n,
                n == node.children@.len(),
                n == node@.children.len(),
                forall|k: int| 0 <= k < n ==> #[trigger] node@.children[k] == node.children@[k]@,
                start == (EnumScan { flags_name: Seq::empty(), entries: Seq::empty(), error: None }),
                name@ == last_text_of(node@.children, 0, Rule::Name, Rule::Name, Seq::empty()),
                scan_enum(
                    node@.children,
                    i as int,
                    EnumScan { flags_name: flags_name@, entries: entries.deep_view(), error: None },
                ) == scan_enum(node@.children, 0, start),
            decreases n - i,
        {
            let entry = &node.children[i];
            proof {
                lemma_children(entry);
            }
            if entry.rule == Rule::Fieldlist {
                match Self::fill_field_list_enum(entry) {
                    Ok(list) => {
                        entries = list;
                    },
                    Err(error) => {
                        proof {
                            lemma_enum_error_stays(
                                node@.children,
                                i + 1,
                                EnumScan {
                                    flags_name: flags_name@,
                                    entries: entries.deep_view(),
                                    error: Some(error@),
                                },
                            );
                        }
                        return Err(with_enum_name(error, name));
                    },
                }
            } else if entry.rule == Rule::EnumFlags {
                flags_name = first_child_text(entry);
            }
            i += 1;
        }
        let mut enum_def = Enum {
            doc_comments: clone_lines(doc_comments),
            name,
            def_file: def_file.to_owned(),
            enum_type: EnumType::Regular,
            flags_name,
            entries,
        };
        assert(enum_def@.values() =~= entry_values(enum_def@.entries));
        enum_def.enum_type = Self::determine_enum_type(&enum_def);
        Ok(enum_def)
    }

    /// The constant that `node` states, with `doc_comments` as its documentation.
    pub fn fill_const(node: &Node, doc_comments: &Vec<String>) -> (const_value: Const)
        ensures
            const_value@ == spec_const_of(node@, doc_comments.deep_view()),
    {
        Const {
            doc_comments: clone_lines(doc_comments),
            name: last_text(node, Rule::Name, Rule::Name),
            value: last_text(node, Rule::NameOrNum, Rule::RawString),
        }
    }

    /// The type alias that `node` states; `doc_comments` document its variable.
    pub fn fill_type(node: &Node, doc_comments: &Vec<String>) -> (type_value: Type)
        ensures
            type_value@ == spec_type_of(node@, doc_comments.deep_view()),
    {
        proof {
            lemma_children(node);
        }
        let mut type_value = Type::default();
        let n = node.children.len();
        let mut i: usize = 0;
        while i < n
            invariant
                i <= n,
                n == node.children@.len(),
                n == node@.children.len(),
                forall|k: int| 0 <= k < n ==> #[trigger] node@.children[k] == node.children@[k]@,
                type_value@.doc_comments == Seq::<Seq<char>>::empty(),
                scan_type(node@.children, i as int, doc_comments.deep_view(), type_value@.var)
                    == spec_type_of(node@, doc_comments.deep_view()).var,
            decreases n - i,
        {
            let entry = &node.children[i];
            proof {
                lemma_children(entry);
            }
            if entry.rule == Rule::Var {
                type_value.var = Self::get_variable(entry, doc_comments);
            }
            i += 1;
        }
        type_value
    }

    /// Adds the names that the module reference `node` holds to `mods`.
    pub fn fill_mods(node: &Node, mods: &mut Vec<String>)
        ensures
            final(mods).deep_view() == name_texts(node@.children, 0, old(mods).deep_view()),
    {
        proof {
            lemma_children(node);
        }
        let n = node.children.len();
        let mut i: usize = 0;
        while i < n
            invariant
                i <= n,
                n == node.children@.len(),
                n == node@.children.len(),
                forall|k: int| 0 <= k < n ==> #[trigger] node@.children[k] == node.children@[k]@,
                name_texts(node@.children, i as int, mods.deep_view()) == name_texts(
                    node@.children,
                    0,
                    old(mods).deep_view(),
                ),
            decreases n - i,
        {
            let entry = &node.children[i];
            proof {
                lemma_children(entry);
            }
            if entry.rule == Rule::Name {
                push_line(mods, entry.text.clone());
            }
            i += 1;
        }
    }

    /// What the file `filename` declares where `chunks` are the chunks of its syntax
    /// tree and `stem` is the base name of its path.
    pub fn build(chunks: &Vec<Node>, filename: &str, stem: Option<String>) -> (res: Result<
        ApiDef,
        ApigenError,
    >)
        ensures
            result_view(res) == spec_build(forest(chunks@), filename@, stem.deep_view()),
    {
        let ghost trees = forest(chunks@);
        let ghost base = stem.deep_view();
        let ghost start = BuildScan {
            def: named_file(filename@, base),
            docs: Seq::empty(),
            error: None,
        };
        proof {
            lemma_forest(chunks@);
        }
        let mut api_def = ApiDef::default();
        api_def.filename = filename.to_owned();
        match stem {
            Some(base_filename) => {
                api_def.base_filename = base_filename;
            },
            None => {},
        }
        let mut current_comments = no_lines();
        let n = chunks.len();
        let mut i: usize = 0;
        while i < n
            invariant
                i <= n,
                n == chunks@.len(),
                trees == forest(chunks@),
                trees.len() == n,
                base == stem.deep_view(),
                start == (BuildScan {
                    def: named_file(filename@, base),
                    docs: Seq::empty(),
                    error: None,
                }),
                forall|k: int| 0 <= k < n ==> #[trigger] trees[k] == chunks@[k]@,
                scan_chunks(
                    trees,
                    i as int,
                    BuildScan {
                        def: api_def@,
                        docs: current_comments.deep_view(),
                        error: None,
                    },
                ) == scan_chunks(trees, 0, start),
            decreases n - i,
        {
            let chunk = &chunks[i];
            proof {
                lemma_children(chunk);
            }
            match chunk.rule {
                Rule::DocComment => {
                    match strip_marker(chunk.text.as_str()) {
                        Some(line) => {
                            push_line(&mut current_comments, line);
                        },
                        None => {},
                    }
                },
                Rule::ModDef => {
                    Self::fill_mods(chunk, &mut api_def.mods);
                },
                Rule::StructDef => {
                    let sdef = Self::fill_struct(
                        chunk,
                        &current_comments,
                        api_def.base_filename.as_str(),
                    );
                    push_deep(&mut api_def.structs, sdef);
                    current_comments = no_lines();
                },
                Rule::UnionDef => {
                    let union_def = Self::fill_struct(
                        chunk,
                        &current_comments,
                        api_def.base_filename.as_str(),
                    );
                    push_deep(&mut api_def.unions, union_def);
                    current_comments = no_lines();
                },
                Rule::CallbackDef => {
                    let mut func = Self::fill_callback(chunk, &current_comments);
                    func.func_type = FunctionType::Static;
                    push_deep(&mut api_def.callbacks, func);
                    current_comments = no_lines();
                },
                Rule::TypeValue => {
                    let type_value = Self::fill_type(chunk, &current_comments);
                    push_deep(&mut api_def.types, type_value);
                    current_comments = no_lines();
                },
                Rule::ConstValue => {
                    let const_value = Self::fill_const(chunk, &current_comments);
                    push_deep(&mut api_def.consts, const_value);
                    current_comments = no_lines();
                },
                Rule::EnumDef => {
                    match Self::fill_enum(
                        chunk,
                        &current_comments,
                        api_def.base_filename.as_str(),
                    ) {
                        Ok(enum_def) => {
                            push_deep(&mut api_def.enums, enum_def);
                            current_comments = no_lines();
                        },
                        Err(error) => {
                            proof {
                                lemma_build_error_stays(
                                    trees,
                                    i + 1,
                                    BuildScan {
                                        def: api_def@,
                                        docs: current_comments.deep_view(),
                                        error: Some(error@),
                                    },
                                );
                            }
                            return Err(error);
                        },
                    }
                },
                _ => {},
            }
            i += 1;
        }
        Ok(api_def)
    }

    /// What the file `filename` with the text `buffer` declares: an error where the
    /// text leaves the grammar or an enum entry cannot get its value, else the
    /// declarations of the text. The file holds `filename` as its path. Its base name
    /// is what `Path::file_stem` makes of `filename`: a piece of `filename`, or empty
    /// where the path has no base name. Nothing else depends on it. A syntax error
    /// names a place in the text: the index of a character, or the length of the text.
    pub fn parse_string(buffer: &str, filename: &str) -> (res: Result<ApiDef, ApigenError>)
        ensures
            res is Ok <==> spec_parse(buffer@, filename@, None) is Ok,
            res is Err ==> result_view(res) == spec_parse(buffer@, filename@, None),
            exists|stem: Option<Seq<char>>|
                (stem matches Some(text) ==> is_part_of(text, filename@)) && result_view(res)
                    == #[trigger] spec_parse(buffer@, filename@, stem),
            res matches Ok(def) ==> def.filename@ == filename@ && is_part_of(
                def.base_filename@,
                filename@,
            ),
            res matches Err(ApigenError::Syntax { offset, .. }) ==> offset <= buffer@.len(),
            spec_file(buffer@) matches Step::Failed(place, _) ==> 0 <= place <= buffer@.len(),
    {
        let chars = to_chars(buffer);
        match parse(&chars) {
            Err(failure) => {
                let error = syntax_error(filename, &chars, failure);
                assert(result_view::<ApiDef>(Err(error)) == spec_parse(buffer@, filename@, None));
                Err(error)
            },
            Ok(chunks) => {
                let stem = file_stem(filename);
                let ghost base = stem.deep_view();
                let res = Self::build(&chunks, filename, stem);
                proof {
                    lemma_outcome_without_stem(buffer@, filename@, base);
                    lemma_build_callbacks(forest(chunks@), filename@, base);
                    lemma_build_errors(forest(chunks@), filename@, base);
                    assert(is_part_of(Seq::<char>::empty(), filename@)) by {
                        assert(Seq::<char>::empty() =~= filename@.subrange(0, 0));
                    }
                }
                assert(result_view(res) == spec_parse(buffer@, filename@, base));
                res
            },
        }
    }
}

} // verus!
