//! The error taxonomy of the parser.
//!
//! Every grammar rule returns a result rather than aborting; errors
//! propagate unchanged to the top-level driver.

use vstd::prelude::*;

use crate::lex::{token_text, LexError, Token, TokenView};

verus! {

/// The mathematical value of a parse error.
pub enum ErrorView {
    Lex(LexError),
    Unexpected { expected: Seq<char>, found: TokenView },
    Unsupported { found: TokenView },
    Incomplete { expected: Seq<char> },
}

/// A structured parse error.
#[derive(Debug, PartialEq)]
pub enum ParseError {
    /// An input character does not start any recognized token.
    LexError(LexError),
    /// A grammar rule required a specific token and found something else.
    UnexpectedToken { expected: String, found: Token },
    /// An operator with a known precedence but no parsing rule here.
    UnsupportedOperator { found: Token },
    /// End of input arrived before a construct's required trailing tokens.
    IncompleteConstruct { expected: String },
}

impl View for ParseError {
    type V = ErrorView;

    open spec fn view(&self) -> ErrorView {
        match self {
            ParseError::LexError(e) => ErrorView::Lex(*e),
            ParseError::UnexpectedToken { expected, found } => ErrorView::Unexpected {
                expected: expected@,
                found: found@,
            },
            ParseError::UnsupportedOperator { found } => ErrorView::Unsupported { found: found@ },
            ParseError::IncompleteConstruct { expected } => ErrorView::Incomplete {
                expected: expected@,
            },
        }
    }
}

/// The text a parse error is rendered as, for reporting.
pub open spec fn error_text(e: ErrorView) -> Seq<char> {
    match e {
        ErrorView::Lex(le) => "Unrecognized character"@,
        ErrorView::Unexpected { expected, found } => "expect "@ + expected + ", find "@
            + token_text(found),
        ErrorView::Unsupported { found } => "unsupported operator "@ + token_text(found),
        ErrorView::Incomplete { expected } => "expect "@ + expected + ", find end of input"@,
    }
}

impl ParseError {
    /// Renders the error as one descriptive line.
    pub fn text(&self) -> (r: String)
        ensures
            r@ == error_text(self@),
    {
        match self {
            ParseError::LexError(e) => "Unrecognized character".to_owned(),
            ParseError::UnexpectedToken { expected, found } => {
                let mut m = "expect ".to_owned();
                m.append(expected.as_str());
                m.append(", find ");
                m.append(found.text().as_str());
                m
            },
            ParseError::UnsupportedOperator { found } => {
                let mut m = "unsupported operator ".to_owned();
                m.append(found.text().as_str());
                m
            },
            ParseError::IncompleteConstruct { expected } => {
                let mut m = "expect ".to_owned();
                m.append(expected.as_str());
                m.append(", find end of input");
                m
            },
        }
    }
}

} // verus!
