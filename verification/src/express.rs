//! The expression parser: precedence climbing over the parser cursor.
//!
//! `parse_expression` parses one expression whose operators all bind at
//! least as tightly as `min_level`, consuming exactly the tokens of that
//! expression; its contract is `s_expr`, the grammar's mathematical
//! definition.  The helper rules (`expect`, `skip_empty`, ...) carry
//! exact contracts of their own.

use vstd::prelude::*;

use crate::error::{ErrorView, ParseError};
use crate::grammar::{ctrl_is, is_blank, s_args, s_expr, s_infix, s_skip, token_level};
use crate::lex::{token_eq, token_text, Token, TokenView};
use crate::node::{lemma_nodes_view_push, node_view, nodes_view, Node, NodeView};
use crate::parser::Parser;
use crate::strutil::str_eq;

verus! {

/// Whether a token is the end-of-file marker.
fn is_eof(word: &Token) -> (r: bool)
    ensures
        r == (word@ == TokenView::EOF),
{
    match word {
        Token::EOF => true,
        _ => false,
    }
}

/// Whether a token is a `Control` token at all.
pub fn is_ctrl(word: &Token) -> (r: bool)
    ensures
        r == (word@ is Control),
{
    match word {
        Token::Control(_) => true,
        _ => false,
    }
}

/// Whether a token is a `Control` token carrying exactly `s`.
pub fn is_ctrl_word(word: &Token, s: &str) -> (r: bool)
    ensures
        r == ctrl_is(word@, s@),
{
    match word {
        Token::Control(c) => str_eq(c.as_str(), s),
        _ => false,
    }
}

/// Wraps a finished node for returning from a grammar rule.
pub fn ok_box(node: Node) -> (r: Result<Box<Node>, ParseError>)
    ensures
        r matches Ok(b) && b@ == node@,
{
    Ok(Box::new(node))
}

/// Requires `word` to be the control token `s`: yields the error the
/// grammar reports otherwise, naming `s` and what was found.
pub fn expect(word: &Token, s: &str) -> (r: Result<(), ParseError>)
    ensures
        ctrl_is(word@, s@) <==> r is Ok,
        !ctrl_is(word@, s@) && word@ == TokenView::EOF ==> (r matches Err(e) && e@
            == (ErrorView::Incomplete { expected: s@ })),
        !ctrl_is(word@, s@) && word@ != TokenView::EOF ==> (r matches Err(e) && e@
            == (ErrorView::Unexpected { expected: s@, found: word@ })),
{
    if is_ctrl_word(word, s) {
        Ok(())
    } else if is_eof(word) {
        Err(ParseError::IncompleteConstruct { expected: s.to_owned() })
    } else {
        Err(ParseError::UnexpectedToken { expected: s.to_owned(), found: word.clone() })
    }
}

/// Requires `word` to be exactly the keyword `token`.
pub fn expect_keyword(word: &Token, token: Token) -> (r: Result<(), ParseError>)
    ensures
        (word@ == token@) <==> r is Ok,
        r matches Err(e) ==> e@ == (ErrorView::Unexpected {
            expected: token_text(token@),
            found: word@,
        }),
{
    if token_eq(word, &token) {
        Ok(())
    } else {
        Err(ParseError::UnexpectedToken { expected: token.text(), found: word.clone() })
    }
}

/// Requires `word` to be one of the keywords in `list`, yielding the
/// matched keyword.
pub fn expect_keys(word: &Token, list: &Vec<Token>) -> (r: Result<Token, ParseError>)
    ensures
        match r {
            Ok(k) => k@ == word@ && (exists|i: int| 0 <= i < list@.len() && list@[i]@ == word@),
            Err(e) => e@ == (ErrorView::Unexpected { expected: "keyword"@, found: word@ }) && (
            forall|i: int| 0 <= i < list@.len() ==> list@[i]@ != word@),
        },
{
    let mut i: usize = 0;
    while i < list.len()
        invariant
            0 <= i <= list@.len(),
            forall|j: int| 0 <= j < i ==> list@[j]@ != word@,
        decreases list@.len() - i,
    {
        if token_eq(&list[i], word) {
            return Ok(list[i].clone());
        }
        i = i + 1;
    }
    Err(ParseError::UnexpectedToken { expected: "keyword".to_owned(), found: word.clone() })
}

/// Advances past line-break and whitespace control tokens, yielding the
/// first solid token (which stays current, unconsumed).
pub fn skip_empty(parser: &mut Parser) -> (t: Token)
    requires
        old(parser).wf(),
    ensures
        final(parser).wf(),
        final(parser).pending() == old(parser).pending(),
        final(parser).toks() == s_skip(old(parser).toks()),
        t@ == final(parser).current@,
{
    loop
        invariant
            parser.wf(),
            parser.pending() == old(parser).pending(),
            s_skip(parser.toks()) == s_skip(old(parser).toks()),
        decreases parser.toks().len(),
    {
        proof {
            parser.lemma_window();
        }
        let blank = match &parser.current {
            Token::Control(s) => str_eq(s.as_str(), "\r") || str_eq(s.as_str(), "\n") || str_eq(
                s.as_str(),
                " ",
            ) || str_eq(s.as_str(), "\t"),
            _ => false,
        };
        proof {
            assert(blank == is_blank(parser.current@));
        }
        if blank {
            parser.next();
        } else {
            return parser.current.clone();
        }
    }
}

/// The precedence level of an operator token, from the grammar's table.
fn get_level(token: &Token) -> (r: Result<u8, ParseError>)
    ensures
        match token_level(token@) {
            Some(l) => r matches Ok(v) && v as int == l && 1 <= l <= 20,
            None => r matches Err(e) && e@ == (ErrorView::Unsupported { found: token@ }),
        },
{
    match token {
        Token::Control(s) => {
            let ss = s.as_str();
            if str_eq(ss, ".") || str_eq(ss, "[") || str_eq(ss, "]") || str_eq(ss, "(") || str_eq(
                ss,
                ")",
            ) || str_eq(ss, "?.") {
                Ok(20)
            } else if str_eq(ss, "new") {
                Ok(19)
            } else if str_eq(ss, "++") || str_eq(ss, "--") {
                Ok(17)
            } else if str_eq(ss, "!") || str_eq(ss, "~") || str_eq(ss, "typeof") || str_eq(
                ss,
                "await",
            ) || str_eq(ss, "delete") {
                Ok(16)
            } else if str_eq(ss, "**") {
                Ok(15)
            } else if str_eq(ss, "*") || str_eq(ss, "/") || str_eq(ss, "%") {
                Ok(14)
            } else if str_eq(ss, "+") || str_eq(ss, "-") {
                Ok(13)
            } else if str_eq(ss, ">") || str_eq(ss, ">=") || str_eq(ss, "<") || str_eq(ss, "<=") {
                Ok(11)
            } else if str_eq(ss, "==") || str_eq(ss, "!=") || str_eq(ss, "!==") || str_eq(
                ss,
                "===",
            ) {
                Ok(10)
            } else if str_eq(ss, "&") {
                Ok(9)
            } else if str_eq(ss, "^") {
                Ok(8)
            } else if str_eq(ss, "|") {
                Ok(7)
            } else if str_eq(ss, "&&") {
                Ok(6)
            } else if str_eq(ss, "||") {
                Ok(5)
            } else if str_eq(ss, "?") || str_eq(ss, ":") {
                Ok(3)
            } else if str_eq(ss, "=") || str_eq(ss, "+=") || str_eq(ss, "-=") || str_eq(ss, "*=")
                || str_eq(ss, "/=") || str_eq(ss, "%=") {
                Ok(2)
            } else if str_eq(ss, ",") {
                Ok(1)
            } else {
                Err(ParseError::UnsupportedOperator { found: token.clone() })
            }
        },
        _ => Err(ParseError::UnsupportedOperator { found: token.clone() }),
    }
}

/// Parses one expression whose operators bind at least as tightly as
/// `min_level`, consuming exactly its tokens; fails with a syntax error
/// when the current token cannot start or continue an expression.
pub fn parse_expression(parser: &mut Parser, min_level: u8) -> (r: Result<Box<Node>, ParseError>)
    requires
        old(parser).wf(),
    ensures
        final(parser).wf(),
        final(parser).pending() == old(parser).pending(),
        match s_expr(old(parser).toks(), min_level as int) {
            Ok((nv, rest)) => r matches Ok(n) && n@ == nv && final(parser).toks() == rest,
            Err(ev) => r matches Err(e) && e@ == ev,
        },
        r is Ok ==> final(parser).toks().len() < old(parser).toks().len(),
    decreases old(parser).toks().len(),
{
    let ghost toks0 = old(parser).toks();
    proof {
        parser.lemma_window();
    }
    let cur = parser.current.clone();
    let mut left: Box<Node>;
    match cur {
        Token::Control(s) => {
            if str_eq(s.as_str(), "++") {
                parser.next();
                let argument = match parse_expression(parser, 18) {
                    Ok(v) => v,
                    Err(e) => return Err(e),
                };
                return Ok(
                    Box::new(Node::UpdateExpression { operator: s, prefix: true, argument }),
                );
            } else if str_eq(s.as_str(), "+") || str_eq(s.as_str(), "-") {
                parser.next();
                let argument = match parse_expression(parser, 14) {
                    Ok(v) => v,
                    Err(e) => return Err(e),
                };
                return Ok(Box::new(Node::UnaryExpression { operator: s, prefix: true, argument }));
            } else if str_eq(s.as_str(), "!") {
                parser.next();
                let argument = match parse_expression(parser, 17) {
                    Ok(v) => v,
                    Err(e) => return Err(e),
                };
                return Ok(Box::new(Node::UnaryExpression { operator: s, prefix: true, argument }));
            } else if str_eq(s.as_str(), "(") {
                parser.next();
                let inner = match parse_expression(parser, 1) {
                    Ok(v) => v,
                    Err(e) => return Err(e),
                };
                proof {
                    parser.lemma_window();
                }
                if is_ctrl_word(&parser.current, ")") {
                    parser.next();
                    return Ok(inner);
                } else if is_eof(&parser.current) {
                    return Err(ParseError::IncompleteConstruct { expected: ")".to_owned() });
                } else {
                    return Err(
                        ParseError::UnexpectedToken {
                            expected: ")".to_owned(),
                            found: parser.current.clone(),
                        },
                    );
                }
            } else {
                return Err(
                    ParseError::UnexpectedToken {
                        expected: "expression".to_owned(),
                        found: Token::Control(s),
                    },
                );
            }
        },
        Token::Variable(name) => {
            left = Box::new(Node::Identity { name });
            parser.next();
        },
        Token::Digit(value) => {
            left = Box::new(Node::NumericLiteral { value });
            parser.next();
        },
        Token::EOF => {
            return Err(ParseError::IncompleteConstruct { expected: "expression".to_owned() });
        },
        other => {
            return Err(
                ParseError::UnexpectedToken { expected: "expression".to_owned(), found: other },
            );
        },
    }
    loop
        invariant
            parser.wf(),
            toks0 == old(parser).toks(),
            parser.pending() == old(parser).pending(),
            parser.toks().len() < toks0.len(),
            s_infix(node_view(*left), parser.toks(), min_level as int) == s_expr(
                toks0,
                min_level as int,
            ),
        decreases parser.toks().len(),
    {
        proof {
            parser.lemma_window();
        }
        let la = parser.current.clone();
        match la {
            Token::EOF => {
                return Ok(left);
            },
            Token::Control(s) => {
                if str_eq(s.as_str(), ";") || str_eq(s.as_str(), ":") || str_eq(s.as_str(), ")")
                    || str_eq(s.as_str(), "]") || str_eq(s.as_str(), ",") || str_eq(
                    s.as_str(),
                    "}",
                ) {
                    return Ok(left);
                }
                let l = match get_level(&parser.current) {
                    Ok(v) => v,
                    Err(e) => return Err(e),
                };
                if l < min_level {
                    return Ok(left);
                }
                if str_eq(s.as_str(), "++") || str_eq(s.as_str(), "--") {
                    parser.next();
                    return Ok(
                        Box::new(
                            Node::UpdateExpression { operator: s, prefix: false, argument: left },
                        ),
                    );
                } else if str_eq(s.as_str(), "?") {
                    parser.next();
                    let consequent = match parse_expression(parser, l) {
                        Ok(v) => v,
                        Err(e) => return Err(e),
                    };
                    proof {
                        parser.lemma_window();
                    }
                    if is_ctrl_word(&parser.current, ":") {
                        parser.next();
                        let alternate = match parse_expression(parser, l + 1) {
                            Ok(v) => v,
                            Err(e) => return Err(e),
                        };
                        return Ok(
                            Box::new(
                                Node::ConditionalExpression { test: left, consequent, alternate },
                            ),
                        );
                    } else if is_eof(&parser.current) {
                        return Err(ParseError::IncompleteConstruct { expected: ":".to_owned() });
                    } else {
                        return Err(
                            ParseError::UnexpectedToken {
                                expected: ":".to_owned(),
                                found: parser.current.clone(),
                            },
                        );
                    }
                } else if str_eq(s.as_str(), "(") {
                    parser.next();
                    let mut arguments: Vec<Box<Node>> = Vec::new();
                    loop
                        invariant
                            parser.wf(),
                            toks0 == old(parser).toks(),
                            parser.pending() == old(parser).pending(),
                            parser.toks().len() < toks0.len(),
                            (match s_args(nodes_view(arguments@), parser.toks()) {
                                Ok((argvs, rest)) => s_expr(toks0, min_level as int) == Ok::<
                                    (NodeView, Seq<TokenView>),
                                    ErrorView,
                                >(
                                    (
                                        NodeView::CallExpression {
                                            callee: Box::new(node_view(*left)),
                                            arguments: argvs,
                                        },
                                        rest,
                                    ),
                                ),
                                Err(e) => s_expr(toks0, min_level as int) == Err::<
                                    (NodeView, Seq<TokenView>),
                                    ErrorView,
                                >(e),
                            }),
                        decreases parser.toks().len(),
                    {
                        proof {
                            parser.lemma_window();
                        }
                        if is_ctrl_word(&parser.current, ")") {
                            parser.next();
                            return Ok(Box::new(Node::CallExpression { callee: left, arguments }));
                        }
                        let argument = match parse_expression(parser, 1) {
                            Ok(v) => v,
                            Err(e) => return Err(e),
                        };
                        proof {
                            lemma_nodes_view_push(arguments@, argument);
                        }
                        arguments.push(argument);
                        proof {
                            parser.lemma_window();
                        }
                        if is_ctrl_word(&parser.current, ",") {
                            parser.next();
                        } else if is_ctrl_word(&parser.current, ")") {
                            parser.next();
                            return Ok(Box::new(Node::CallExpression { callee: left, arguments }));
                        } else if is_eof(&parser.current) {
                            return Err(
                                ParseError::IncompleteConstruct { expected: ", or )".to_owned() },
                            );
                        } else {
                            return Err(
                                ParseError::UnexpectedToken {
                                    expected: ", or )".to_owned(),
                                    found: parser.current.clone(),
                                },
                            );
                        }
                    }
                } else if str_eq(s.as_str(), "=") {
                    parser.next();
                    let right = match parse_expression(parser, l + 1) {
                        Ok(v) => v,
                        Err(e) => return Err(e),
                    };
                    left = Box::new(Node::AssignmentExpression { left, operator: s, right });
                } else if str_eq(s.as_str(), ".") {
                    parser.next();
                    let property = match parse_expression(parser, l + 1) {
                        Ok(v) => v,
                        Err(e) => return Err(e),
                    };
                    left = Box::new(Node::MemberExpression { object: left, property });
                } else if str_eq(s.as_str(), "+") || str_eq(s.as_str(), "-") || str_eq(
                    s.as_str(),
                    "*",
                ) || str_eq(s.as_str(), "/") || str_eq(s.as_str(), "%") || str_eq(s.as_str(), ">")
                    || str_eq(s.as_str(), "<") || str_eq(s.as_str(), ">=") || str_eq(
                    s.as_str(),
                    "<=",
                ) {
                    parser.next();
                    let right = match parse_expression(parser, l + 1) {
                        Ok(v) => v,
                        Err(e) => return Err(e),
                    };
                    left = Box::new(Node::BinaryExpression { left, operator: s, right });
                } else {
                    return Err(ParseError::UnsupportedOperator { found: Token::Control(s) });
                }
            },
            _ => {
                return Ok(left);
            },
        }
    }
}

} // verus!
