//! The parser state: the lexer plus one token of lookahead.
//!
//! The invariant every grammar rule relies on: `current` is the token the
//! rule is examining and `lookahead` is exactly the next token the lexer
//! would produce.  The state is abstracted as `toks()`, the sequence of
//! remaining tokens, and `pending()`, the lexical error that scanning the
//! rest of the input runs into, if any.

use vstd::prelude::*;

use crate::error::{ErrorView, ParseError};
use crate::exp::declaration_exp::build_let;
use crate::exp::for_exp::build_for;
use crate::express::parse_expression;
use crate::grammar::s_stmts;
use crate::lex::{
    lemma_token_at_bounds, lemma_ws_end_bounds, lex_err_from, lex_from, token_at, ws_end, Lex,
    LexError, LexStep, Token, TokenView,
};
use crate::node::{lemma_nodes_view_push, lemma_seq_shift, node_view, nodes_view, Node, NodeView};

verus! {

/// The parser cursor: owns the lexer, `current` and `lookahead`.
pub struct Parser {
    pub current: Token,
    pub lookahead: Token,
    pub list: Vec<Token>,
    pub lex: Lex,
    pub err: Option<LexError>,
}

impl Parser {
    /// The tokens the lexer has not handed out yet.
    closed spec fn rest(self) -> Seq<TokenView> {
        lex_from(self.lex.src(), self.lex.at())
    }

    /// The sequence of tokens still to be consumed, `current` first.  It
    /// ends at the end of the input or just before a lexical error.
    pub closed spec fn toks(self) -> Seq<TokenView> {
        if self.current@ == TokenView::EOF {
            Seq::empty()
        } else if self.lookahead@ == TokenView::EOF {
            seq![self.current@]
        } else {
            seq![self.current@, self.lookahead@] + self.rest()
        }
    }

    /// The lexical error that consuming all of `toks()` runs into, if any.
    pub closed spec fn pending(self) -> Option<LexError> {
        match self.err {
            Some(e) => Some(e),
            None => lex_err_from(self.lex.src(), self.lex.at()),
        }
    }

    /// Well-formedness: the lookahead window agrees with the lexer.
    pub closed spec fn wf(self) -> bool {
        &&& self.lex.wf()
        &&& (self.current@ == TokenView::EOF ==> self.lookahead@ == TokenView::EOF)
        &&& (self.lookahead@ == TokenView::EOF ==> lex_from(self.lex.src(), self.lex.at())
            =~= Seq::<TokenView>::empty())
        &&& (match self.err {
            Some(e) => self.lookahead@ == TokenView::EOF && lex_err_from(
                self.lex.src(),
                self.lex.at(),
            ) == Some(e),
            None => self.lookahead@ == TokenView::EOF ==> lex_err_from(
                self.lex.src(),
                self.lex.at(),
            ) is None,
        })
    }

    /// `current` and `lookahead` are exactly the first two remaining
    /// tokens (end-of-file standing in where fewer remain), and the
    /// end-of-file marker itself never appears among the remaining tokens.
    pub proof fn lemma_window(self)
        requires
            self.wf(),
        ensures
            self.current@ == (if self.toks().len() > 0 {
                self.toks()[0]
            } else {
                TokenView::EOF
            }),
            self.lookahead@ == (if self.toks().len() > 1 {
                self.toks()[1]
            } else {
                TokenView::EOF
            }),
            self.current@ == TokenView::EOF ==> self.toks().len() == 0,
            self.toks().len() > 0 ==> self.toks()[0] == self.current@ && self.current@
                != TokenView::EOF,
            self.toks().len() > 1 ==> self.toks()[1] == self.lookahead@ && self.lookahead@
                != TokenView::EOF,
    {
        if self.current@ != TokenView::EOF && self.lookahead@ != TokenView::EOF {
            lemma_lex_from_no_eof(self.lex.src(), self.lex.at());
        }
    }

    /// Primes `current` and `lookahead` with the first two tokens of the
    /// input.  A lexical error in either position is held back and
    /// surfaces once parsing reaches it.
    pub fn new(input: String) -> (r: Parser)
        ensures
            r.wf(),
            r.toks() == lex_from(input@, 0),
            r.pending() == lex_err_from(input@, 0),
    {
        let ghost src = input@;
        let mut lex = Lex::new(input);
        let mut err: Option<LexError> = None;
        let current: Token;
        let lookahead: Token;
        proof {
            lemma_step_bounds(src, 0);
        }
        match lex.next() {
            Ok(t1) => {
                current = t1;
                proof {
                    lemma_step_bounds(src, lex.at());
                }
                match lex.next() {
                    Ok(t2) => {
                        lookahead = t2;
                    },
                    Err(e2) => {
                        lookahead = Token::EOF;
                        err = Some(e2);
                    },
                }
            },
            Err(e1) => {
                current = Token::EOF;
                lookahead = Token::EOF;
                err = Some(e1);
            },
        }
        let mut list: Vec<Token> = Vec::new();
        list.push(current.clone());
        let r = Parser { current, lookahead, list, lex, err };
        proof {
            assert(r.toks() =~= lex_from(src, 0));
        }
        r
    }

    /// Shifts `lookahead` into `current` and pulls a fresh token from the
    /// lexer; it has no failure mode, producing end-of-file tokens once
    /// the input (or the token run before a lexical error) is exhausted.
    pub fn next(&mut self)
        requires
            old(self).wf(),
        ensures
            final(self).wf(),
            final(self).toks() == (if old(self).toks().len() > 0 {
                old(self).toks().drop_first()
            } else {
                old(self).toks()
            }),
            final(self).pending() == old(self).pending(),
            final(self).current@ == old(self).lookahead@,
    {
        proof {
            lemma_step_bounds(old(self).lex.src(), old(self).lex.at());
        }
        self.current = self.lookahead.clone();
        self.list.push(self.current.clone());
        match self.lex.next() {
            Ok(t) => {
                self.lookahead = t;
            },
            Err(e) => {
                self.lookahead = Token::EOF;
                self.err = Some(e);
            },
        }
        proof {
            lemma_step_bounds(self.lex.src(), self.lex.at());
            if old(self).toks().len() > 0 {
                assert(final(self).toks() =~= old(self).toks().drop_first());
            } else {
                assert(final(self).toks() =~= old(self).toks());
            }
        }
    }

    /// Parses the whole remaining input: one top-level statement after
    /// another, in source order, until the tokens run out; a lexical
    /// error beyond the last token then surfaces.  Parsing stops at the
    /// first error; no partial result is returned.
    pub fn parse(&mut self) -> (r: Result<Vec<Box<Node>>, ParseError>)
        requires
            old(self).wf(),
        ensures
            final(self).wf(),
            match s_stmts(old(self).toks(), old(self).pending()) {
                Ok(ns) => r matches Ok(v) && nodes_view(v@) == ns && final(self).current@
                    == TokenView::EOF,
                Err(ev) => r matches Err(e) && e@ == ev,
            },
    {
        let ghost toks0 = old(self).toks();
        let ghost pend = old(self).pending();
        let mut ast: Vec<Box<Node>> = Vec::new();
        proof {
            assert(nodes_view(ast@) =~= Seq::<NodeView>::empty());
        }
        loop
            invariant
                self.wf(),
                toks0 == old(self).toks(),
                pend == old(self).pending(),
                self.pending() == pend,
                (match s_stmts(self.toks(), pend) {
                    Ok(ns) => s_stmts(toks0, pend) == Ok::<Seq<NodeView>, ErrorView>(
                        nodes_view(ast@) + ns,
                    ),
                    Err(e) => s_stmts(toks0, pend) == Err::<Seq<NodeView>, ErrorView>(e),
                }),
            decreases self.toks().len(),
        {
            proof {
                self.lemma_window();
            }
            let stmt: Box<Node>;
            match &self.current {
                Token::EOF => {
                    match self.err {
                        Some(e) => {
                            return Err(ParseError::LexError(e));
                        },
                        None => {
                            proof {
                                assert(nodes_view(ast@) + Seq::<NodeView>::empty() =~= nodes_view(
                                    ast@,
                                ));
                            }
                            return Ok(ast);
                        },
                    }
                },
                Token::Var | Token::Let | Token::Const => {
                    stmt = match build_let(self) {
                        Ok(v) => v,
                        Err(e) => return Err(e),
                    };
                },
                Token::For => {
                    stmt = match build_for(self) {
                        Ok(v) => v,
                        Err(e) => return Err(e),
                    };
                },
                _ => {
                    stmt = match parse_expression(self, 1) {
                        Ok(v) => v,
                        Err(e) => return Err(e),
                    };
                },
            }
            let ghost nv = node_view(*stmt);
            let ghost done = nodes_view(ast@);
            proof {
                lemma_nodes_view_push(ast@, stmt);
            }
            ast.push(stmt);
            proof {
                if s_stmts(self.toks(), pend) is Ok {
                    lemma_seq_shift(done, nv, s_stmts(self.toks(), pend)->Ok_0);
                }
            }
        }
    }
}

/// Helper: the facts of `lemma_token_at_bounds` together with whitespace
/// idempotence, at one lexer position.
proof fn lemma_step_bounds(s: Seq<char>, i: int)
    requires
        0 <= i <= s.len(),
    ensures
        match token_at(s, i) {
            LexStep::Tok { t, next } => i < next <= s.len() && t != TokenView::EOF && lex_from(
                s,
                i,
            ) == seq![t] + lex_from(s, next) && lex_err_from(s, i) == lex_err_from(s, next),
            LexStep::Error { c, at } => i <= at < s.len() && lex_from(s, i)
                == Seq::<TokenView>::empty() && lex_err_from(s, i) == Some(
                LexError { character: c, offset: at as usize },
            ),
            LexStep::End => lex_from(s, i) == Seq::<TokenView>::empty() && lex_err_from(s, i)
                is None,
        },
        i <= ws_end(s, i) <= s.len(),
        ws_end(s, ws_end(s, i)) == ws_end(s, i),
{
    lemma_token_at_bounds(s, i);
    lemma_ws_end_bounds(s, i);
}

/// The lexer never emits the end-of-file marker as a stream element.
proof fn lemma_lex_from_no_eof(s: Seq<char>, i: int)
    requires
        0 <= i <= s.len(),
    ensures
        forall|k: int| 0 <= k < lex_from(s, i).len() ==> lex_from(s, i)[k] != TokenView::EOF,
    decreases s.len() - i,
{
    lemma_token_at_bounds(s, i);
    match token_at(s, i) {
        LexStep::Tok { t, next } => {
            lemma_lex_from_no_eof(s, next);
            assert forall|k: int| 0 <= k < lex_from(s, i).len() implies lex_from(s, i)[k]
                != TokenView::EOF by {
                if k > 0 {
                    assert(lex_from(s, i)[k] == lex_from(s, next)[k - 1]);
                }
            }
        },
        _ => {},
    }
}

} // verus!
