//! The abstract syntax tree.
//!
//! `Node` is the tagged-union node type produced by every grammar rule.
//! Children are exclusively owned, so a tree is a strict ownership tree.
//! `NodeView` is the mathematical value of a node, with text abstracted to
//! character sequences and child lists to sequences; it is what every
//! parsing contract speaks about.

use vstd::prelude::*;

use crate::lex::{Token, TokenView};

verus! {

/// The mathematical value of an AST node.
pub enum NodeView {
    EmptyStatement,
    Identity { name: Seq<char> },
    NumericLiteral { value: Seq<char> },
    VariableDeclaration { kind: TokenView, declarations: Seq<NodeView> },
    VariableDeclarator { id: Box<NodeView>, init: Box<NodeView> },
    AssignmentExpression { left: Box<NodeView>, operator: Seq<char>, right: Box<NodeView> },
    BinaryExpression { left: Box<NodeView>, operator: Seq<char>, right: Box<NodeView> },
    UnaryExpression { operator: Seq<char>, prefix: bool, argument: Box<NodeView> },
    UpdateExpression { operator: Seq<char>, prefix: bool, argument: Box<NodeView> },
    MemberExpression { object: Box<NodeView>, property: Box<NodeView> },
    ConditionalExpression { test: Box<NodeView>, consequent: Box<NodeView>, alternate: Box<NodeView> },
    CallExpression { callee: Box<NodeView>, arguments: Seq<NodeView> },
    ForStatement { init: Box<NodeView>, test: Box<NodeView>, update: Box<NodeView>, body: Box<NodeView> },
}

/// An AST node.  `VariableDeclaration.declarations` is non-empty in every
/// tree a grammar rule returns; a `ForStatement`'s `init`, `test`, `update`
/// and `body` are `EmptyStatement` when the corresponding clause is absent.
#[derive(Debug, PartialEq)]
pub enum Node {
    EmptyStatement {},
    Identity { name: String },
    NumericLiteral { value: String },
    VariableDeclaration { kind: Token, declarations: Vec<Box<Node>> },
    VariableDeclarator { id: Box<Node>, init: Box<Node> },
    AssignmentExpression { left: Box<Node>, operator: String, right: Box<Node> },
    BinaryExpression { left: Box<Node>, operator: String, right: Box<Node> },
    UnaryExpression { operator: String, prefix: bool, argument: Box<Node> },
    UpdateExpression { operator: String, prefix: bool, argument: Box<Node> },
    MemberExpression { object: Box<Node>, property: Box<Node> },
    ConditionalExpression { test: Box<Node>, consequent: Box<Node>, alternate: Box<Node> },
    CallExpression { callee: Box<Node>, arguments: Vec<Box<Node>> },
    ForStatement { init: Box<Node>, test: Box<Node>, update: Box<Node>, body: Box<Node> },
}

/// The mathematical value of a node.
pub open spec fn node_view(n: Node) -> NodeView
    decreases n, 0int,
{
    match n {
        Node::EmptyStatement {} => NodeView::EmptyStatement,
        Node::Identity { name } => NodeView::Identity { name: name@ },
        Node::NumericLiteral { value } => NodeView::NumericLiteral { value: value@ },
        Node::VariableDeclaration { kind, declarations } => NodeView::VariableDeclaration {
            kind: kind@,
            declarations: nodes_view(declarations@),
        },
        Node::VariableDeclarator { id, init } => NodeView::VariableDeclarator {
            id: Box::new(node_view(*id)),
            init: Box::new(node_view(*init)),
        },
        Node::AssignmentExpression { left, operator, right } => NodeView::AssignmentExpression {
            left: Box::new(node_view(*left)),
            operator: operator@,
            right: Box::new(node_view(*right)),
        },
        Node::BinaryExpression { left, operator, right } => NodeView::BinaryExpression {
            left: Box::new(node_view(*left)),
            operator: operator@,
            right: Box::new(node_view(*right)),
        },
        Node::UnaryExpression { operator, prefix, argument } => NodeView::UnaryExpression {
            operator: operator@,
            prefix,
            argument: Box::new(node_view(*argument)),
        },
        Node::UpdateExpression { operator, prefix, argument } => NodeView::UpdateExpression {
            operator: operator@,
            prefix,
            argument: Box::new(node_view(*argument)),
        },
        Node::MemberExpression { object, property } => NodeView::MemberExpression {
            object: Box::new(node_view(*object)),
            property: Box::new(node_view(*property)),
        },
        Node::ConditionalExpression { test, consequent, alternate } => NodeView::ConditionalExpression {
            test: Box::new(node_view(*test)),
            consequent: Box::new(node_view(*consequent)),
            alternate: Box::new(node_view(*alternate)),
        },
        Node::CallExpression { callee, arguments } => NodeView::CallExpression {
            callee: Box::new(node_view(*callee)),
            arguments: nodes_view(arguments@),
        },
        Node::ForStatement { init, test, update, body } => NodeView::ForStatement {
            init: Box::new(node_view(*init)),
            test: Box::new(node_view(*test)),
            update: Box::new(node_view(*update)),
            body: Box::new(node_view(*body)),
        },
    }
}

/// The mathematical value of a list of child nodes.
pub open spec fn nodes_view(v: Seq<Box<Node>>) -> Seq<NodeView>
    decreases v, 1int,
{
    if v.len() == 0 {
        Seq::empty()
    } else {
        seq![node_view(*v[0])] + nodes_view(v.drop_first())
    }
}

impl View for Node {
    type V = NodeView;

    open spec fn view(&self) -> NodeView {
        node_view(*self)
    }
}

/// Collecting one more element into an accumulator keeps the combined
/// sequence the same.
pub proof fn lemma_seq_shift<T>(a: Seq<T>, x: T, b: Seq<T>)
    ensures
        a + (seq![x] + b) == a.push(x) + b,
{
    assert(a + (seq![x] + b) =~= a.push(x) + b);
}

/// Appending a child appends its view.
pub proof fn lemma_nodes_view_push(v: Seq<Box<Node>>, d: Box<Node>)
    ensures
        nodes_view(v.push(d)) == nodes_view(v).push(node_view(*d)),
    decreases v.len(),
{
    if v.len() == 0 {
        assert(v.push(d).drop_first() =~= Seq::<Box<Node>>::empty());
        assert(v =~= Seq::<Box<Node>>::empty());
        assert(nodes_view(v.push(d)) =~= nodes_view(v).push(node_view(*d)));
    } else {
        lemma_nodes_view_push(v.drop_first(), d);
        assert(v.push(d).drop_first() =~= v.drop_first().push(d));
        assert(v.push(d)[0] == v[0]);
        assert(nodes_view(v.push(d)) =~= nodes_view(v).push(node_view(*d)));
    }
}

} // verus!
