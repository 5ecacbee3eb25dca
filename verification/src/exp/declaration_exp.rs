//! The declaration statement builder: `var`/`let`/`const` followed by
//! one or more comma-separated declarators.

use vstd::prelude::*;

use crate::error::{ErrorView, ParseError};
use crate::express::{expect_keys, is_ctrl_word, parse_expression};
use crate::grammar::{s_decl_list, s_declarator, s_let};
use crate::lex::{Token, TokenView};
use crate::node::{lemma_nodes_view_push, node_view, nodes_view, Node, NodeView};
use crate::parser::Parser;
use crate::strutil::str_eq;

verus! {

/// Parses one declarator: a bound name, then either `=` and a full
/// initializer expression, or the implicit-undefined identity node.
fn build_declarator(parser: &mut Parser) -> (r: Result<Box<Node>, ParseError>)
    requires
        old(parser).wf(),
    ensures
        final(parser).wf(),
        final(parser).pending() == old(parser).pending(),
        match s_declarator(old(parser).toks()) {
            Ok((nv, rest)) => r matches Ok(n) && n@ == nv && final(parser).toks() == rest,
            Err(ev) => r matches Err(e) && e@ == ev,
        },
        r is Ok ==> final(parser).toks().len() < old(parser).toks().len(),
{
    proof {
        parser.lemma_window();
    }
    let cur = parser.current.clone();
    match cur {
        Token::Variable(name) => {
            let ghost nm = name@;
            let id = Box::new(Node::Identity { name });
            proof {
                assert(node_view(*id) == (NodeView::Identity { name: nm }));
            }
            parser.next();
            proof {
                parser.lemma_window();
            }
            if is_ctrl_word(&parser.current, "=") {
                parser.next();
                let init = match parse_expression(parser, 1) {
                    Ok(v) => v,
                    Err(e) => return Err(e),
                };
                Ok(Box::new(Node::VariableDeclarator { id, init }))
            } else {
                let und = Box::new(Node::Identity { name: "undefined".to_owned() });
                proof {
                    assert(node_view(*und) == (NodeView::Identity { name: "undefined"@ }));
                }
                Ok(Box::new(Node::VariableDeclarator { id, init: und }))
            }
        },
        other => Err(
            ParseError::UnexpectedToken { expected: "Variable".to_owned(), found: other },
        ),
    }
}

/// Parses a variable declaration: the keyword, then declarators separated
/// by commas (line-break control tokens between them are skipped).  The
/// returned `VariableDeclaration` holds at least one declarator.
pub fn build_let(parser: &mut Parser) -> (r: Result<Box<Node>, ParseError>)
    requires
        old(parser).wf(),
    ensures
        final(parser).wf(),
        final(parser).pending() == old(parser).pending(),
        match s_let(old(parser).toks()) {
            Ok((nv, rest)) => r matches Ok(n) && n@ == nv && final(parser).toks() == rest,
            Err(ev) => r matches Err(e) && e@ == ev,
        },
        r is Ok ==> final(parser).toks().len() < old(parser).toks().len(),
{
    let ghost toks0 = old(parser).toks();
    proof {
        parser.lemma_window();
    }
    let kind = match expect_keys(&parser.current, &vec![Token::Var, Token::Let, Token::Const]) {
        Ok(k) => k,
        Err(e) => return Err(e),
    };
    proof {
        assert(kind@ == TokenView::Var || kind@ == TokenView::Let || kind@ == TokenView::Const);
    }
    parser.next();
    let first = match build_declarator(parser) {
        Ok(v) => v,
        Err(e) => return Err(e),
    };
    let mut declarations: Vec<Box<Node>> = Vec::new();
    let ghost fv = node_view(*first);
    proof {
        lemma_nodes_view_push(declarations@, first);
    }
    declarations.push(first);
    proof {
        assert(nodes_view(declarations@) =~= seq![fv]);
    }
    loop
        invariant
            parser.wf(),
            toks0 == old(parser).toks(),
            parser.pending() == old(parser).pending(),
            parser.toks().len() < toks0.len(),
            toks0.len() > 0,
            kind@ == toks0[0],
            (match s_decl_list(nodes_view(declarations@), parser.toks()) {
                Ok((ds, rest)) => s_let(toks0) == Ok::<(NodeView, Seq<TokenView>), ErrorView>(
                    (NodeView::VariableDeclaration { kind: toks0[0], declarations: ds }, rest),
                ),
                Err(e) => s_let(toks0) == Err::<(NodeView, Seq<TokenView>), ErrorView>(e),
            }),
        decreases parser.toks().len(),
    {
        proof {
            parser.lemma_window();
        }
        let c2 = parser.current.clone();
        match c2 {
            Token::Control(s) => {
                if str_eq(s.as_str(), ",") {
                    parser.next();
                    let d = match build_declarator(parser) {
                        Ok(v) => v,
                        Err(e) => return Err(e),
                    };
                    proof {
                        lemma_nodes_view_push(declarations@, d);
                    }
                    declarations.push(d);
                } else if str_eq(s.as_str(), "\r") || str_eq(s.as_str(), "\n") {
                    parser.next();
                } else {
                    return Ok(Box::new(Node::VariableDeclaration { kind, declarations }));
                }
            },
            _ => {
                return Ok(Box::new(Node::VariableDeclaration { kind, declarations }));
            },
        }
    }
}

} // verus!
