//! The `for` statement builder: `for` `(` init `;` test `;` update `)`
//! body, each clause optionally empty, the body a `;`, an empty block,
//! or a block holding a single expression statement.

use vstd::prelude::*;

use crate::error::ParseError;
use crate::exp::declaration_exp::build_let;
use crate::express::{expect, expect_keyword, is_ctrl_word, ok_box, parse_expression};
use crate::grammar::{s_for, s_for_body, s_for_init, s_for_test, s_for_update};
use crate::lex::{Token, TokenView};
use crate::node::{node_view, Node, NodeView};
use crate::parser::Parser;

verus! {

/// Parses one `for` statement, consuming exactly its tokens.
pub fn build_for(parser: &mut Parser) -> (r: Result<Box<Node>, ParseError>)
    requires
        old(parser).wf(),
    ensures
        final(parser).wf(),
        final(parser).pending() == old(parser).pending(),
        match s_for(old(parser).toks()) {
            Ok((nv, rest)) => r matches Ok(n) && n@ == nv && final(parser).toks() == rest,
            Err(ev) => r matches Err(e) && e@ == ev,
        },
        r is Ok ==> final(parser).toks().len() < old(parser).toks().len(),
{
    let ghost toks0 = old(parser).toks();
    proof {
        parser.lemma_window();
    }
    let init: Box<Node>;
    let test: Box<Node>;
    let update: Box<Node>;
    let body: Box<Node>;
    match expect_keyword(&parser.current, Token::For) {
        Ok(_) => {},
        Err(e) => return Err(e),
    }
    parser.next();
    proof {
        parser.lemma_window();
    }
    match expect(&parser.current, "(") {
        Ok(_) => {},
        Err(e) => return Err(e),
    }
    parser.next();
    proof {
        parser.lemma_window();
    }
    let ghost ti = parser.toks();
    proof {
        assert(s_for(toks0) == s_for_init(ti));
    }
    let is_decl = match &parser.current {
        Token::Let | Token::Var | Token::Const => true,
        _ => false,
    };
    if is_decl {
        init = match build_let(parser) {
            Ok(v) => v,
            Err(e) => return Err(e),
        };
    } else if is_ctrl_word(&parser.current, ";") {
        init = Box::new(Node::EmptyStatement {});
        proof {
            assert(node_view(*init) == NodeView::EmptyStatement);
        }
    } else {
        init = match parse_expression(parser, 1) {
            Ok(v) => v,
            Err(e) => return Err(e),
        };
    }
    proof {
        parser.lemma_window();
    }
    match expect(&parser.current, ";") {
        Ok(_) => {},
        Err(e) => return Err(e),
    }
    parser.next();
    let ghost tt = parser.toks();
    proof {
        assert(s_for_init(ti) == s_for_test(node_view(*init), tt));
    }
    proof {
        parser.lemma_window();
    }
    if is_ctrl_word(&parser.current, ";") {
        test = Box::new(Node::EmptyStatement {});
        proof {
            assert(node_view(*test) == NodeView::EmptyStatement);
        }
    } else {
        test = match parse_expression(parser, 1) {
            Ok(v) => v,
            Err(e) => return Err(e),
        };
    }
    proof {
        parser.lemma_window();
    }
    match expect(&parser.current, ";") {
        Ok(_) => {},
        Err(e) => return Err(e),
    }
    parser.next();
    let ghost tu = parser.toks();
    proof {
        assert(s_for_test(node_view(*init), tt) == s_for_update(
            node_view(*init),
            node_view(*test),
            tu,
        ));
    }
    proof {
        parser.lemma_window();
    }
    if is_ctrl_word(&parser.current, ")") {
        update = Box::new(Node::EmptyStatement {});
        proof {
            assert(node_view(*update) == NodeView::EmptyStatement);
        }
    } else {
        update = match parse_expression(parser, 1) {
            Ok(v) => v,
            Err(e) => return Err(e),
        };
    }
    proof {
        parser.lemma_window();
    }
    match expect(&parser.current, ")") {
        Ok(_) => {},
        Err(e) => return Err(e),
    }
    parser.next();
    let ghost tb = parser.toks();
    proof {
        assert(s_for_update(node_view(*init), node_view(*test), tu) == s_for_body(
            node_view(*init),
            node_view(*test),
            node_view(*update),
            tb,
        ));
    }
    proof {
        parser.lemma_window();
    }
    if is_ctrl_word(&parser.current, ";") {
        parser.next();
        body = Box::new(Node::EmptyStatement {});
        proof {
            assert(node_view(*body) == NodeView::EmptyStatement);
        }
    } else if is_ctrl_word(&parser.current, "{") {
        parser.next();
        proof {
            parser.lemma_window();
        }
        if is_ctrl_word(&parser.current, "}") {
            body = Box::new(Node::EmptyStatement {});
            proof {
                assert(node_view(*body) == NodeView::EmptyStatement);
            }
        } else {
            body = match parse_expression(parser, 1) {
                Ok(v) => v,
                Err(e) => return Err(e),
            };
        }
        proof {
            parser.lemma_window();
        }
        match expect(&parser.current, "}") {
            Ok(_) => {},
            Err(e) => return Err(e),
        }
        parser.next();
    } else if matches!(&parser.current, Token::EOF) {
        return Err(
            ParseError::UnexpectedToken { expected: "{ or ;".to_owned(), found: Token::EOF },
        );
    } else {
        return Err(
            ParseError::UnexpectedToken {
                expected: "{ or ;".to_owned(),
                found: parser.current.clone(),
            },
        );
    }
    ok_box(Node::ForStatement { init, test, update, body })
}

} // verus!
