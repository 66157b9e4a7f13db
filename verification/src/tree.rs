//! The concrete syntax tree of a definition file.
//!
//! A node carries the rule of the grammar that matched, the text it matched and the
//! nodes of the rules that matched inside it. The view of a [`Node`] is a [`Tree`]:
//! the same tree with each text as a sequence of characters.

use vstd::prelude::*;

verus! {

/// The rules of the grammar that leave a node in the tree.
#[derive(Clone, Copy, Debug, PartialEq, Eq, Structural)]
pub enum Rule {
    /// `struct Name { .. }`, with its attribute clauses in front.
    StructDef,
    /// `union Name { .. }`
    UnionDef,
    /// `enum Name { .. }`, with its flags clause behind.
    EnumDef,
    /// `callback name(..) -> ..`
    CallbackDef,
    /// `mod name`
    ModDef,
    /// `type Alias: Type`
    TypeValue,
    /// `const NAME = value`
    ConstValue,
    /// A line that starts with `///`.
    DocComment,
    /// `#[attributes(..)]`
    Attributes,
    /// `#[derive(..)]`
    Derive,
    /// `#[traits(..)]`
    Traits,
    /// The flags clause of an enum: `flags Name`.
    EnumFlags,
    /// Names separated by commas.
    Namelist,
    /// An identifier.
    Name,
    /// An identifier or a number.
    NameOrNum,
    /// A quoted text on one line, quotes included.
    StringLit,
    /// A quoted text that may span lines, quotes included.
    RawString,
    /// `{ .. }`
    Fieldlist,
    /// One member between the braces.
    Field,
    /// A function signature.
    Function,
    /// `[static]`
    StaticTyp,
    /// `[manual]`
    ManualTyp,
    /// `( .. )`
    Varlist,
    /// `-> Type`
    RetExp,
    /// `name: Type`
    Var,
    /// The name of a type.
    VType,
    /// `&`
    RefExp,
    /// `*`
    PointerExp,
    /// `*const`
    ConstPtrExp,
    /// `?`
    Optional,
    /// `= value` behind a variable.
    DefaultVal,
    /// `[Type]` or `[Type; size]`
    Array,
    /// `; size` inside an array.
    ArraySize,
    /// An entry of an enum.
    EnumEntry,
    /// `= value` behind an enum entry.
    EnumAssign,
}

/// A node of the concrete syntax tree.
#[derive(Debug)]
pub struct Node {
    /// The rule that matched.
    pub rule: Rule,
    /// The text that the rule matched.
    pub text: String,
    /// The nodes inside, in the order of the text.
    pub children: Vec<Node>,
}

/// View of a [`Node`].
pub struct Tree {
    pub rule: Rule,
    pub text: Seq<char>,
    pub children: Seq<Tree>,
}

impl View for Node {
    type V = Tree;

    open spec fn view(&self) -> Tree
        decreases self,
    {
        Tree { rule: self.rule, text: self.text@, children: forest(self.children@) }
    }
}

/// The views of `nodes`, in order.
pub open spec fn forest(nodes: Seq<Node>) -> Seq<Tree>
    decreases nodes,
{
    if nodes.len() == 0 {
        Seq::empty()
    } else {
        forest(nodes.drop_last()).push(nodes.last()@)
    }
}

/// `forest` works node by node.
pub proof fn lemma_forest(nodes: Seq<Node>)
    ensures
        forest(nodes).len() == nodes.len(),
        forall|i: int| 0 <= i < nodes.len() ==> #[trigger] forest(nodes)[i] == nodes[i]@,
    decreases nodes.len(),
{
    if nodes.len() > 0 {
        lemma_forest(nodes.drop_last());
        assert(forest(nodes) == forest(nodes.drop_last()).push(nodes.last()@));
    } else {
        assert(forest(nodes) == Seq::<Tree>::empty());
    }
}

/// `forest` follows `push`.
pub proof fn lemma_forest_push(nodes: Seq<Node>, node: Node)
    ensures
        forest(nodes.push(node)) == forest(nodes).push(node@),
{
    assert(nodes.push(node).drop_last() =~= nodes);
    assert(forest(nodes.push(node)) == forest(nodes.push(node).drop_last()).push(
        nodes.push(node).last()@,
    ));
}

/// The children of a node's view are the views of its children.
pub proof fn lemma_children(node: &Node)
    ensures
        node@.rule == node.rule,
        node@.text == node.text@,
        node@.children.len() == node.children@.len(),
        forall|i: int|
            0 <= i < node.children@.len() ==> #[trigger] node@.children[i] == node.children@[i]@,
{
    lemma_forest(node.children@);
}

impl Node {
    /// A node of `rule` over `text` with `children` inside.
    pub fn new(rule: Rule, text: String, children: Vec<Node>) -> (node: Node)
        ensures
            node@ == (Tree { rule, text: text@, children: forest(children@) }),
    {
        Node { rule, text, children }
    }
}

} // verus!
