//! The mathematical definition of the grammar.
//!
//! Each function here maps a sequence of remaining tokens to the parsed
//! node and the tokens left over, or to the parse error, exactly as the
//! executable grammar rules behave; the executable rules carry these
//! functions as their contracts.  Precedence climbing appears as the
//! `min` parameter: an infix operator binding looser than `min` ends the
//! expression.

use vstd::prelude::*;

use crate::error::ErrorView;
use crate::lex::{is_ws_char, lex_err_from, lex_from, ws_end, LexError, TokenView};
use crate::node::NodeView;

verus! {

/// The precedence table: the binding level of an operator spelling,
/// higher binding tighter; `None` for text that is no operator.
pub open spec fn level_of(op: Seq<char>) -> Option<int> {
    if op == "."@ || op == "["@ || op == "]"@ || op == "("@ || op == ")"@ || op == "?."@ {
        Some(20)
    } else if op == "new"@ {
        Some(19)
    } else if op == "++"@ || op == "--"@ {
        Some(17)
    } else if op == "!"@ || op == "~"@ || op == "typeof"@ || op == "await"@ || op == "delete"@ {
        Some(16)
    } else if op == "**"@ {
        Some(15)
    } else if op == "*"@ || op == "/"@ || op == "%"@ {
        Some(14)
    } else if op == "+"@ || op == "-"@ {
        Some(13)
    } else if op == ">"@ || op == ">="@ || op == "<"@ || op == "<="@ {
        Some(11)
    } else if op == "=="@ || op == "!="@ || op == "!=="@ || op == "==="@ {
        Some(10)
    } else if op == "&"@ {
        Some(9)
    } else if op == "^"@ {
        Some(8)
    } else if op == "|"@ {
        Some(7)
    } else if op == "&&"@ {
        Some(6)
    } else if op == "||"@ {
        Some(5)
    } else if op == "?"@ || op == ":"@ {
        Some(3)
    } else if op == "="@ || op == "+="@ || op == "-="@ || op == "*="@ || op == "/="@ || op
        == "%="@ {
        Some(2)
    } else if op == ","@ {
        Some(1)
    } else {
        None
    }
}

/// The binding level of a token: only `Control` tokens have one.
pub open spec fn token_level(t: TokenView) -> Option<int> {
    match t {
        TokenView::Control(s) => level_of(s),
        _ => None,
    }
}

/// Whether a token is a `Control` token carrying exactly `s`.
pub open spec fn ctrl_is(t: TokenView, s: Seq<char>) -> bool {
    t matches TokenView::Control(c) && c == s
}

/// Whether a token ends an expression: the end of the input, a statement
/// terminator, a ternary boundary, a closing delimiter, or any token that
/// is not punctuation at all.  Such a token is left for the caller.
pub open spec fn expr_ends(t: TokenView) -> bool {
    match t {
        TokenView::Control(s) => s == ";"@ || s == ":"@ || s == ")"@ || s == "]"@ || s == ","@
            || s == "}"@,
        _ => true,
    }
}

/// An expression, parsed by precedence climbing with minimum level `min`:
/// a prefix operator, a parenthesized group, or an identifier or numeric
/// operand followed by the infix loop.
pub open spec fn s_expr(toks: Seq<TokenView>, min: int) -> Result<
    (NodeView, Seq<TokenView>),
    ErrorView,
>
    decreases toks.len(), 2int,
{
    if toks.len() == 0 {
        Err(ErrorView::Incomplete { expected: "expression"@ })
    } else {
        match toks[0] {
            TokenView::Control(s) => {
                if s == "++"@ {
                    match s_expr(toks.drop_first(), 18) {
                        Ok((arg, rest)) => Ok(
                            (
                                NodeView::UpdateExpression {
                                    operator: s,
                                    prefix: true,
                                    argument: Box::new(arg),
                                },
                                rest,
                            ),
                        ),
                        Err(e) => Err(e),
                    }
                } else if s == "+"@ || s == "-"@ {
                    match s_expr(toks.drop_first(), 14) {
                        Ok((arg, rest)) => Ok(
                            (
                                NodeView::UnaryExpression {
                                    operator: s,
                                    prefix: true,
                                    argument: Box::new(arg),
                                },
                                rest,
                            ),
                        ),
                        Err(e) => Err(e),
                    }
                } else if s == "!"@ {
                    match s_expr(toks.drop_first(), 17) {
                        Ok((arg, rest)) => Ok(
                            (
                                NodeView::UnaryExpression {
                                    operator: s,
                                    prefix: true,
                                    argument: Box::new(arg),
                                },
                                rest,
                            ),
                        ),
                        Err(e) => Err(e),
                    }
                } else if s == "("@ {
                    match s_expr(toks.drop_first(), 1) {
                        Ok((inner, rest)) => if rest.len() == 0 {
                            Err(ErrorView::Incomplete { expected: ")"@ })
                        } else if ctrl_is(rest[0], ")"@) {
                            Ok((inner, rest.drop_first()))
                        } else {
                            Err(ErrorView::Unexpected { expected: ")"@, found: rest[0] })
                        },
                        Err(e) => Err(e),
                    }
                } else {
                    Err(ErrorView::Unexpected { expected: "expression"@, found: toks[0] })
                }
            },
            TokenView::Variable(name) => s_infix(
                NodeView::Identity { name },
                toks.drop_first(),
                min,
            ),
            TokenView::Digit(value) => s_infix(
                NodeView::NumericLiteral { value },
                toks.drop_first(),
                min,
            ),
            TokenView::EOF => Err(ErrorView::Incomplete { expected: "expression"@ }),
            _ => Err(ErrorView::Unexpected { expected: "expression"@, found: toks[0] }),
        }
    }
}

/// The infix and postfix loop: repeatedly examines the next operator and
/// folds the accumulated left operand, until a terminator or an operator
/// binding looser than `min`.
pub open spec fn s_infix(left: NodeView, toks: Seq<TokenView>, min: int) -> Result<
    (NodeView, Seq<TokenView>),
    ErrorView,
>
    decreases toks.len(), 0int,
{
    if toks.len() == 0 || expr_ends(toks[0]) {
        Ok((left, toks))
    } else {
        match toks[0] {
            TokenView::Control(s) => match level_of(s) {
                None => Err(ErrorView::Unsupported { found: toks[0] }),
                Some(l) => if l < min {
                    Ok((left, toks))
                } else if s == "++"@ || s == "--"@ {
                    Ok(
                        (
                            NodeView::UpdateExpression {
                                operator: s,
                                prefix: false,
                                argument: Box::new(left),
                            },
                            toks.drop_first(),
                        ),
                    )
                } else if s == "?"@ {
                    match s_expr(toks.drop_first(), l) {
                        Ok((cons, rest)) => if rest.len() == 0 {
                            Err(ErrorView::Incomplete { expected: ":"@ })
                        } else if ctrl_is(rest[0], ":"@) {
                            if rest.drop_first().len() < toks.len() {
                                match s_expr(rest.drop_first(), l + 1) {
                                    Ok((alt, rest2)) => Ok(
                                        (
                                            NodeView::ConditionalExpression {
                                                test: Box::new(left),
                                                consequent: Box::new(cons),
                                                alternate: Box::new(alt),
                                            },
                                            rest2,
                                        ),
                                    ),
                                    Err(e) => Err(e),
                                }
                            } else {
                                Err(arbitrary())
                            }
                        } else {
                            Err(ErrorView::Unexpected { expected: ":"@, found: rest[0] })
                        },
                        Err(e) => Err(e),
                    }
                } else if s == "("@ {
                    match s_args(Seq::empty(), toks.drop_first()) {
                        Ok((args, rest)) => Ok(
                            (
                                NodeView::CallExpression { callee: Box::new(left), arguments: args },
                                rest,
                            ),
                        ),
                        Err(e) => Err(e),
                    }
                } else if s == "="@ {
                    match s_expr(toks.drop_first(), l + 1) {
                        Ok((right, rest)) => if rest.len() < toks.len() {
                            s_infix(
                                NodeView::AssignmentExpression {
                                    left: Box::new(left),
                                    operator: s,
                                    right: Box::new(right),
                                },
                                rest,
                                min,
                            )
                        } else {
                            Err(arbitrary())
                        },
                        Err(e) => Err(e),
                    }
                } else if s == "."@ {
                    match s_expr(toks.drop_first(), l + 1) {
                        Ok((right, rest)) => if rest.len() < toks.len() {
                            s_infix(
                                NodeView::MemberExpression {
                                    object: Box::new(left),
                                    property: Box::new(right),
                                },
                                rest,
                                min,
                            )
                        } else {
                            Err(arbitrary())
                        },
                        Err(e) => Err(e),
                    }
                } else if s == "+"@ || s == "-"@ || s == "*"@ || s == "/"@ || s == "%"@ || s
                    == ">"@ || s == "<"@ || s == ">="@ || s == "<="@ {
                    match s_expr(toks.drop_first(), l + 1) {
                        Ok((right, rest)) => if rest.len() < toks.len() {
                            s_infix(
                                NodeView::BinaryExpression {
                                    left: Box::new(left),
                                    operator: s,
                                    right: Box::new(right),
                                },
                                rest,
                                min,
                            )
                        } else {
                            Err(arbitrary())
                        },
                        Err(e) => Err(e),
                    }
                } else {
                    Err(ErrorView::Unsupported { found: toks[0] })
                },
            },
            _ => Ok((left, toks)),
        }
    }
}

/// Comma-separated call arguments, each a full expression, up to the
/// closing parenthesis.
pub open spec fn s_args(args: Seq<NodeView>, toks: Seq<TokenView>) -> Result<
    (Seq<NodeView>, Seq<TokenView>),
    ErrorView,
>
    decreases toks.len(), 3int,
{
    if toks.len() > 0 && ctrl_is(toks[0], ")"@) {
        Ok((args, toks.drop_first()))
    } else {
        match s_expr(toks, 1) {
            Ok((e, rest)) => if rest.len() == 0 {
                Err(ErrorView::Incomplete { expected: ", or )"@ })
            } else if ctrl_is(rest[0], ","@) {
                if rest.drop_first().len() < toks.len() {
                    s_args(args.push(e), rest.drop_first())
                } else {
                    Err(arbitrary())
                }
            } else if ctrl_is(rest[0], ")"@) {
                Ok((args.push(e), rest.drop_first()))
            } else {
                Err(ErrorView::Unexpected { expected: ", or )"@, found: rest[0] })
            },
            Err(e) => Err(e),
        }
    }
}

/// One declarator: a bound name, and either `=` followed by a full
/// initializer expression or the implicit-undefined identity node.
pub open spec fn s_declarator(toks: Seq<TokenView>) -> Result<
    (NodeView, Seq<TokenView>),
    ErrorView,
>
    decreases toks.len(), 4int,
{
    if toks.len() == 0 {
        Err(ErrorView::Unexpected { expected: "Variable"@, found: TokenView::EOF })
    } else {
        match toks[0] {
            TokenView::Variable(name) => {
                let id = NodeView::Identity { name };
                let rest = toks.drop_first();
                if rest.len() > 0 && ctrl_is(rest[0], "="@) {
                    match s_expr(rest.drop_first(), 1) {
                        Ok((init, rest2)) => Ok(
                            (
                                NodeView::VariableDeclarator {
                                    id: Box::new(id),
                                    init: Box::new(init),
                                },
                                rest2,
                            ),
                        ),
                        Err(e) => Err(e),
                    }
                } else {
                    Ok(
                        (
                            NodeView::VariableDeclarator {
                                id: Box::new(id),
                                init: Box::new(NodeView::Identity { name: "undefined"@ }),
                            },
                            rest,
                        ),
                    )
                }
            },
            _ => Err(ErrorView::Unexpected { expected: "Variable"@, found: toks[0] }),
        }
    }
}

/// The rest of a declarator list: a comma continues it, line-break
/// control tokens are skipped, anything else ends it.
pub open spec fn s_decl_list(decls: Seq<NodeView>, toks: Seq<TokenView>) -> Result<
    (Seq<NodeView>, Seq<TokenView>),
    ErrorView,
>
    decreases toks.len(), 5int,
{
    if toks.len() == 0 {
        Ok((decls, toks))
    } else {
        match toks[0] {
            TokenView::Control(s) => if s == ","@ {
                match s_declarator(toks.drop_first()) {
                    Ok((d, rest)) => if rest.len() < toks.len() {
                        s_decl_list(decls.push(d), rest)
                    } else {
                        Err(arbitrary())
                    },
                    Err(e) => Err(e),
                }
            } else if s == "\r"@ || s == "\n"@ {
                s_decl_list(decls, toks.drop_first())
            } else {
                Ok((decls, toks))
            },
            _ => Ok((decls, toks)),
        }
    }
}

/// A variable declaration: a `var`/`let`/`const` keyword, then one or
/// more comma-separated declarators.
pub open spec fn s_let(toks: Seq<TokenView>) -> Result<(NodeView, Seq<TokenView>), ErrorView>
    decreases toks.len(), 6int,
{
    if toks.len() == 0 {
        Err(ErrorView::Unexpected { expected: "keyword"@, found: TokenView::EOF })
    } else if toks[0] == TokenView::Var || toks[0] == TokenView::Let || toks[0]
        == TokenView::Const {
        match s_declarator(toks.drop_first()) {
            Ok((d, rest)) => if rest.len() < toks.len() {
                match s_decl_list(seq![d], rest) {
                    Ok((decls, rest2)) => Ok(
                        (
                            NodeView::VariableDeclaration { kind: toks[0], declarations: decls },
                            rest2,
                        ),
                    ),
                    Err(e) => Err(e),
                }
            } else {
                Err(arbitrary())
            },
            Err(e) => Err(e),
        }
    } else {
        Err(ErrorView::Unexpected { expected: "keyword"@, found: toks[0] })
    }
}

/// A `for` statement: the `for` keyword and the opening parenthesis,
/// then the three clauses and the body, staged below.
pub open spec fn s_for(toks: Seq<TokenView>) -> Result<(NodeView, Seq<TokenView>), ErrorView>
    decreases toks.len(), 8int,
{
    if toks.len() == 0 {
        Err(ErrorView::Unexpected { expected: "for"@, found: TokenView::EOF })
    } else if toks[0] != TokenView::For {
        Err(ErrorView::Unexpected { expected: "for"@, found: toks[0] })
    } else {
        let t1 = toks.drop_first();
        if t1.len() == 0 {
            Err(ErrorView::Incomplete { expected: "("@ })
        } else if !ctrl_is(t1[0], "("@) {
            Err(ErrorView::Unexpected { expected: "("@, found: t1[0] })
        } else {
            s_for_init(t1.drop_first())
        }
    }
}

/// The init clause of a `for` statement: a declaration, empty before the
/// first `;`, or a full expression; then the `;` and the test clause.
pub open spec fn s_for_init(toks: Seq<TokenView>) -> Result<(NodeView, Seq<TokenView>), ErrorView>
    decreases toks.len(), 7int,
{
    let init_step = if toks.len() > 0 && (toks[0] == TokenView::Let || toks[0] == TokenView::Var
        || toks[0] == TokenView::Const) {
        s_let(toks)
    } else if toks.len() > 0 && ctrl_is(toks[0], ";"@) {
        Ok((NodeView::EmptyStatement, toks))
    } else {
        s_expr(toks, 1)
    };
    match init_step {
        Err(e) => Err(e),
        Ok((init, r1)) => if r1.len() == 0 {
            Err(ErrorView::Incomplete { expected: ";"@ })
        } else if !ctrl_is(r1[0], ";"@) {
            Err(ErrorView::Unexpected { expected: ";"@, found: r1[0] })
        } else if r1.drop_first().len() < toks.len() {
            s_for_test(init, r1.drop_first())
        } else {
            Err(arbitrary())
        },
    }
}

/// The test clause of a `for` statement: empty before the second `;` or a
/// full expression; then the `;` and the update clause.
pub open spec fn s_for_test(init: NodeView, toks: Seq<TokenView>) -> Result<
    (NodeView, Seq<TokenView>),
    ErrorView,
>
    decreases toks.len(), 7int,
{
    let test_step = if toks.len() > 0 && ctrl_is(toks[0], ";"@) {
        Ok((NodeView::EmptyStatement, toks))
    } else {
        s_expr(toks, 1)
    };
    match test_step {
        Err(e) => Err(e),
        Ok((test, r1)) => if r1.len() == 0 {
            Err(ErrorView::Incomplete { expected: ";"@ })
        } else if !ctrl_is(r1[0], ";"@) {
            Err(ErrorView::Unexpected { expected: ";"@, found: r1[0] })
        } else if r1.drop_first().len() < toks.len() {
            s_for_update(init, test, r1.drop_first())
        } else {
            Err(arbitrary())
        },
    }
}

/// The update clause of a `for` statement: empty before the closing
/// parenthesis or a full expression; then the `)` and the body.
pub open spec fn s_for_update(init: NodeView, test: NodeView, toks: Seq<TokenView>) -> Result<
    (NodeView, Seq<TokenView>),
    ErrorView,
>
    decreases toks.len(), 7int,
{
    let update_step = if toks.len() > 0 && ctrl_is(toks[0], ")"@) {
        Ok((NodeView::EmptyStatement, toks))
    } else {
        s_expr(toks, 1)
    };
    match update_step {
        Err(e) => Err(e),
        Ok((update, r1)) => if r1.len() == 0 {
            Err(ErrorView::Incomplete { expected: ")"@ })
        } else if !ctrl_is(r1[0], ")"@) {
            Err(ErrorView::Unexpected { expected: ")"@, found: r1[0] })
        } else if r1.drop_first().len() < toks.len() {
            s_for_body(init, test, update, r1.drop_first())
        } else {
            Err(arbitrary())
        },
    }
}

/// The body of a `for` statement, after the closing parenthesis of the
/// clauses: `;` or `{}` for an empty body, or a block holding one
/// expression statement.
pub open spec fn s_for_body(
    init: NodeView,
    test: NodeView,
    update: NodeView,
    toks: Seq<TokenView>,
) -> Result<(NodeView, Seq<TokenView>), ErrorView>
    decreases toks.len(), 7int,
{
    if toks.len() == 0 {
        Err(ErrorView::Unexpected { expected: "{ or ;"@, found: TokenView::EOF })
    } else if ctrl_is(toks[0], ";"@) {
        Ok(
            (
                NodeView::ForStatement {
                    init: Box::new(init),
                    test: Box::new(test),
                    update: Box::new(update),
                    body: Box::new(NodeView::EmptyStatement),
                },
                toks.drop_first(),
            ),
        )
    } else if ctrl_is(toks[0], "{"@) {
        let t1 = toks.drop_first();
        let body_step = if t1.len() > 0 && ctrl_is(t1[0], "}"@) {
            Ok((NodeView::EmptyStatement, t1))
        } else {
            s_expr(t1, 1)
        };
        match body_step {
            Err(e) => Err(e),
            Ok((body, r1)) => if r1.len() == 0 {
                Err(ErrorView::Incomplete { expected: "}"@ })
            } else if !ctrl_is(r1[0], "}"@) {
                Err(ErrorView::Unexpected { expected: "}"@, found: r1[0] })
            } else {
                Ok(
                    (
                        NodeView::ForStatement {
                            init: Box::new(init),
                            test: Box::new(test),
                            update: Box::new(update),
                            body: Box::new(body),
                        },
                        r1.drop_first(),
                    ),
                )
            },
        }
    } else {
        Err(ErrorView::Unexpected { expected: "{ or ;"@, found: toks[0] })
    }
}

/// The whole program: statements parsed in source order until the tokens
/// run out; then the lexical error the input holds beyond them, if any.
pub open spec fn s_stmts(toks: Seq<TokenView>, pending: Option<LexError>) -> Result<
    Seq<NodeView>,
    ErrorView,
>
    decreases toks.len(), 9int,
{
    if toks.len() == 0 {
        match pending {
            Some(e) => Err(ErrorView::Lex(e)),
            None => Ok(Seq::empty()),
        }
    } else {
        let step = if toks[0] == TokenView::Var || toks[0] == TokenView::Let || toks[0]
            == TokenView::Const {
            s_let(toks)
        } else if toks[0] == TokenView::For {
            s_for(toks)
        } else {
            s_expr(toks, 1)
        };
        match step {
            Err(e) => Err(e),
            Ok((n, rest)) => if rest.len() < toks.len() {
                match s_stmts(rest, pending) {
                    Ok(ns) => Ok(seq![n] + ns),
                    Err(e) => Err(e),
                }
            } else {
                Err(arbitrary())
            },
        }
    }
}

/// Skipping whitespace in an all-whitespace input reaches its end.
proof fn lemma_ws_end_all(s: Seq<char>, i: int)
    requires
        0 <= i <= s.len(),
        forall|k: int| 0 <= k < s.len() ==> is_ws_char(s[k]),
    ensures
        ws_end(s, i) == s.len(),
    decreases s.len() - i,
{
    if i < s.len() {
        lemma_ws_end_all(s, i + 1);
    }
}

/// An input consisting only of whitespace and line breaks lexes to no
/// tokens and no lexical error, and parses to the empty statement
/// sequence.  With the contracts of `Parser::new` and `Parser::parse`,
/// parsing such an input yields an empty program.
pub proof fn lemma_whitespace_only_is_empty_program(s: Seq<char>)
    requires
        forall|k: int| 0 <= k < s.len() ==> is_ws_char(s[k]),
    ensures
        lex_from(s, 0) == Seq::<TokenView>::empty(),
        lex_err_from(s, 0) is None,
        s_stmts(lex_from(s, 0), lex_err_from(s, 0)) == Ok::<Seq<NodeView>, ErrorView>(
            Seq::empty(),
        ),
{
    lemma_ws_end_all(s, 0);
}

/// Tokens the statement layer skips as blank: line-break and whitespace
/// control tokens.
pub open spec fn is_blank(t: TokenView) -> bool {
    t matches TokenView::Control(s) && (s == "\r"@ || s == "\n"@ || s == " "@ || s == "\t"@)
}

/// The remaining tokens after skipping leading blank control tokens.
pub open spec fn s_skip(toks: Seq<TokenView>) -> Seq<TokenView>
    decreases toks.len(),
{
    if toks.len() > 0 && is_blank(toks[0]) {
        s_skip(toks.drop_first())
    } else {
        toks
    }
}

} // verus!
