use vstd::prelude::*;
use crate::parser::statements::Statement;
use crate::parser::types::Type;

verus! {

/// Marks the types that can stand as a node of the syntax tree.
pub trait ParseNode {

}

/// A node of the syntax tree. Each node owns its children.
#[derive(Debug, PartialEq, Eq)]
pub enum Node {
    Variable(VariableNode),
    Bool(BoolNode),
    Number(NumberNode),
    String(StringNode),
    FunctionCall(FunctionCallNode),
    VariableCall(VariableCallNode),
    Block(BlockNode),
    Function(FunctionNode),
    FunctionArg(FunctionArgNode),
    Statement(StatementNode),
}

impl ParseNode for Node {

}

/// A variable declaration: `var name :: Type = value`.
#[derive(Debug, PartialEq, Eq)]
pub struct VariableNode {
    pub var_type: Type,
    pub name: String,
    pub value: Box<Node>,
}

impl ParseNode for VariableNode {

}

/// `True` or `False`.
#[derive(Debug, PartialEq, Eq)]
pub struct BoolNode {
    pub value: bool,
}

impl ParseNode for BoolNode {

}

/// An unsigned whole number.
#[derive(Debug, PartialEq, Eq)]
pub struct NumberNode {
    pub int_value: usize,
}

impl ParseNode for NumberNode {

}

/// A string literal, held as it is written, quotes included.
#[derive(Debug, PartialEq, Eq)]
pub struct StringNode {
    pub value: String,
}

impl ParseNode for StringNode {

}

/// A call: `name(args)`.
#[derive(Debug, PartialEq, Eq)]
pub struct FunctionCallNode {
    pub name: String,
    pub args: Vec<Node>,
}

impl ParseNode for FunctionCallNode {

}

/// The use of a variable by its name.
#[derive(Debug, PartialEq, Eq)]
pub struct VariableCallNode {
    pub name: String,
}

impl ParseNode for VariableCallNode {

}

/// A block: `{ nodes }`.
#[derive(Debug, PartialEq, Eq)]
pub struct BlockNode {
    pub nodes: Vec<Node>,
}

impl ParseNode for BlockNode {

}

/// A function declaration: `fcn name(args) -> Type block`.
#[derive(Debug, PartialEq, Eq)]
pub struct FunctionNode {
    pub name: String,
    pub args: Vec<FunctionArgNode>,
    pub return_type: Type,
    pub block: Box<Node>,
}

impl ParseNode for FunctionNode {

}

/// One argument of a function declaration: `name :: Type`.
#[derive(Debug, PartialEq, Eq)]
pub struct FunctionArgNode {
    pub var_type: Type,
    pub name: String,
}

impl ParseNode for FunctionArgNode {

}

/// A control statement. Only `return` carries a value.
#[derive(Debug, PartialEq, Eq)]
pub struct StatementNode {
    pub stat_type: Statement,
    pub value: Option<Box<Node>>,
}

impl ParseNode for StatementNode {

}

/// A function argument as the contracts see it.
pub struct FunctionArgView {
    pub var_type: Type,
    pub name: Seq<char>,
}

/// A node as the contracts see it.
#[allow(inconsistent_fields)]
pub enum NodeView {
    Variable { var_type: Type, name: Seq<char>, value: Box<NodeView> },
    Bool { value: bool },
    Number { int_value: usize },
    String { value: Seq<char> },
    FunctionCall { name: Seq<char>, args: Seq<NodeView> },
    VariableCall { name: Seq<char> },
    Block { nodes: Seq<NodeView> },
    Function {
        name: Seq<char>,
        args: Seq<FunctionArgView>,
        return_type: Type,
        block: Box<NodeView>,
    },
    FunctionArg(FunctionArgView),
    Statement { stat_type: Statement, value: Option<Box<NodeView>> },
}

impl View for FunctionArgNode {
    type V = FunctionArgView;

    open spec fn view(&self) -> FunctionArgView {
        FunctionArgView { var_type: self.var_type, name: self.name@ }
    }
}

/// The views of a run of function arguments, in order.
pub open spec fn args_view(args: Seq<FunctionArgNode>) -> Seq<FunctionArgView> {
    Seq::new(args.len(), |i: int| args[i]@)
}

/// The view of a node: the same tree, with texts and lists as mathematical
/// sequences.
pub open spec fn node_view(node: Node) -> NodeView
    decreases node,
{
    match node {
        Node::Variable(v) => NodeView::Variable {
            var_type: v.var_type,
            name: v.name@,
            value: Box::new(node_view(*v.value)),
        },
        Node::Bool(b) => NodeView::Bool { value: b.value },
        Node::Number(n) => NodeView::Number { int_value: n.int_value },
        Node::String(s) => NodeView::String { value: s.value@ },
        Node::FunctionCall(c) => NodeView::FunctionCall {
            name: c.name@,
            args: nodes_view(c.args@),
        },
        Node::VariableCall(v) => NodeView::VariableCall { name: v.name@ },
        Node::Block(b) => NodeView::Block { nodes: nodes_view(b.nodes@) },
        Node::Function(f) => NodeView::Function {
            name: f.name@,
            args: args_view(f.args@),
            return_type: f.return_type,
            block: Box::new(node_view(*f.block)),
        },
        Node::FunctionArg(a) => NodeView::FunctionArg(a@),
        Node::Statement(s) => NodeView::Statement {
            stat_type: s.stat_type,
            value: match s.value {
                Some(v) => Some(Box::new(node_view(*v))),
                None => None,
            },
        },
    }
}

/// The views of a run of nodes, in order.
pub open spec fn nodes_view(nodes: Seq<Node>) -> Seq<NodeView>
    decreases nodes,
{
    Seq::new(
        nodes.len(),
        |i: int|
            if 0 <= i < nodes.len() {
                node_view(nodes[i])
            } else {
                arbitrary()
            },
    )
}

impl View for Node {
    type V = NodeView;

    open spec fn view(&self) -> NodeView {
        node_view(*self)
    }
}

/// Adding a node at the end of a run adds its view at the end of the run's view.
pub proof fn lemma_nodes_view_push(nodes: Seq<Node>, node: Node)
    ensures
        nodes_view(nodes.push(node)) == nodes_view(nodes).push(node@),
{
    assert(nodes_view(nodes.push(node)) =~= nodes_view(nodes).push(node@));
}

/// The nodes that a parse has gathered at its top level.
pub struct ParseTree {
    nodes: Vec<Node>,
}

impl View for ParseTree {
    type V = Seq<NodeView>;

    closed spec fn view(&self) -> Seq<NodeView> {
        nodes_view(self.nodes@)
    }
}

impl ParseTree {
    /// A tree without nodes.
    pub fn new() -> (tree: Self)
        ensures
            tree@ == Seq::<NodeView>::empty(),
    {
        let tree = Self { nodes: Vec::new() };
        assert(tree@ =~= Seq::<NodeView>::empty());
        tree
    }

    /// The nodes of the tree, in order.
    pub fn nodes(&self) -> (nodes: &Vec<Node>)
        ensures
            nodes_view(nodes@) == self@,
    {
        &self.nodes
    }
}

} // verus!
