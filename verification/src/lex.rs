//! The token model and the lexer.
//!
//! `Token` is the closed set of lexical categories; `Lex` owns the source
//! text and a character offset and produces one token per `next` call.
//! The lexer is specified against `token_at`, a mathematical description of
//! the single token starting at a given offset of a character sequence, and
//! `lex_from`, the whole token sequence from an offset.

use vstd::prelude::*;
use vstd::string::StrSliceExecFns;

use crate::strutil::str_eq;

verus! {

/// The mathematical value of a token: the same variants as `Token`, with
/// the carried text abstracted to a sequence of characters.
pub enum TokenView {
    LF,
    CR,
    Var,
    Let,
    Const,
    Undefined,
    Null,
    Await,
    Async,
    Function,
    With,
    If,
    Switch,
    Case,
    Break,
    Continue,
    For,
    While,
    Variable(Seq<char>),
    Digit(Seq<char>),
    String,
    Control(Seq<char>),
    EOF,
}

/// A classified lexical unit: a keyword, an identifier (`Variable`), a run
/// of digits (`Digit`), a punctuation or operator run (`Control`), or the
/// end-of-file marker.
#[derive(Debug, PartialEq, Eq)]
pub enum Token {
    LF,
    CR,
    Var,
    Let,
    Const,
    Undefined,
    Null,
    Await,
    Async,
    Function,
    With,
    If,
    Switch,
    Case,
    Break,
    Continue,
    For,
    While,
    Variable(String),
    Digit(String),
    String,
    Control(String),
    EOF,
}

impl View for Token {
    type V = TokenView;

    open spec fn view(&self) -> TokenView {
        match self {
            Token::LF => TokenView::LF,
            Token::CR => TokenView::CR,
            Token::Var => TokenView::Var,
            Token::Let => TokenView::Let,
            Token::Const => TokenView::Const,
            Token::Undefined => TokenView::Undefined,
            Token::Null => TokenView::Null,
            Token::Await => TokenView::Await,
            Token::Async => TokenView::Async,
            Token::Function => TokenView::Function,
            Token::With => TokenView::With,
            Token::If => TokenView::If,
            Token::Switch => TokenView::Switch,
            Token::Case => TokenView::Case,
            Token::Break => TokenView::Break,
            Token::Continue => TokenView::Continue,
            Token::For => TokenView::For,
            Token::While => TokenView::While,
            Token::Variable(s) => TokenView::Variable(s@),
            Token::Digit(s) => TokenView::Digit(s@),
            Token::String => TokenView::String,
            Token::Control(s) => TokenView::Control(s@),
            Token::EOF => TokenView::EOF,
        }
    }
}

impl Clone for Token {
    /// A token is a cheaply cloned value type; the clone has the same view.
    fn clone(&self) -> (r: Token)
        ensures
            r@ == self@,
    {
        match self {
            Token::LF => Token::LF,
            Token::CR => Token::CR,
            Token::Var => Token::Var,
            Token::Let => Token::Let,
            Token::Const => Token::Const,
            Token::Undefined => Token::Undefined,
            Token::Null => Token::Null,
            Token::Await => Token::Await,
            Token::Async => Token::Async,
            Token::Function => Token::Function,
            Token::With => Token::With,
            Token::If => Token::If,
            Token::Switch => Token::Switch,
            Token::Case => Token::Case,
            Token::Break => Token::Break,
            Token::Continue => Token::Continue,
            Token::For => Token::For,
            Token::While => Token::While,
            Token::Variable(s) => Token::Variable(s.clone()),
            Token::Digit(s) => Token::Digit(s.clone()),
            Token::String => Token::String,
            Token::Control(s) => Token::Control(s.clone()),
            Token::EOF => Token::EOF,
        }
    }
}

/// Structural equality of two tokens, decided over their views.
pub fn token_eq(a: &Token, b: &Token) -> (r: bool)
    ensures
        r == (a@ == b@),
{
    match (a, b) {
        (Token::LF, Token::LF) => true,
        (Token::CR, Token::CR) => true,
        (Token::Var, Token::Var) => true,
        (Token::Let, Token::Let) => true,
        (Token::Const, Token::Const) => true,
        (Token::Undefined, Token::Undefined) => true,
        (Token::Null, Token::Null) => true,
        (Token::Await, Token::Await) => true,
        (Token::Async, Token::Async) => true,
        (Token::Function, Token::Function) => true,
        (Token::With, Token::With) => true,
        (Token::If, Token::If) => true,
        (Token::Switch, Token::Switch) => true,
        (Token::Case, Token::Case) => true,
        (Token::Break, Token::Break) => true,
        (Token::Continue, Token::Continue) => true,
        (Token::For, Token::For) => true,
        (Token::While, Token::While) => true,
        (Token::Variable(x), Token::Variable(y)) => str_eq(x.as_str(), y.as_str()),
        (Token::Digit(x), Token::Digit(y)) => str_eq(x.as_str(), y.as_str()),
        (Token::String, Token::String) => true,
        (Token::Control(x), Token::Control(y)) => str_eq(x.as_str(), y.as_str()),
        (Token::EOF, Token::EOF) => true,
        _ => false,
    }
}

/// A lexical error: `character` does not start any recognized token, at
/// character offset `offset` of the source.
#[derive(Debug, PartialEq, Eq, Structural, Clone, Copy)]
pub struct LexError {
    pub character: char,
    pub offset: usize,
}

// ---------------------------------------------------------------------------
// Character classes
// ---------------------------------------------------------------------------

/// Whitespace skipped between tokens.
pub open spec fn is_ws_char(c: char) -> bool {
    c == ' ' || c == '\r' || c == '\n'
}

/// The operator alphabet: a run of these forms one `Control` token.
pub open spec fn is_op_char(c: char) -> bool {
    c == '=' || c == '+' || c == '-' || c == '*' || c == '/' || c == '%' || c == '>' || c == '<'
        || c == '|' || c == '?' || c == ':'
}

/// Single-character punctuation, one `Control` token each.
pub open spec fn is_punct_char(c: char) -> bool {
    c == ';' || c == '(' || c == ')' || c == '{' || c == '}' || c == '.' || c == '!' || c == ','
}

/// The first character of an identifier.
pub open spec fn is_word_start_char(c: char) -> bool {
    c == '_' || (('a' as u32) <= (c as u32) && (c as u32) <= ('z' as u32)) || (('A' as u32) <= (
    c as u32) && (c as u32) <= ('Z' as u32))
}

/// A continuation character of an identifier.
pub open spec fn is_word_char(c: char) -> bool {
    is_word_start_char(c) || is_digit_char(c)
}

/// A decimal digit.
pub open spec fn is_digit_char(c: char) -> bool {
    ('0' as u32) <= (c as u32) && (c as u32) <= ('9' as u32)
}

/// A continuation character of a numeric literal (underscores separate).
pub open spec fn is_digit_cont_char(c: char) -> bool {
    is_digit_char(c) || c == '_'
}

fn ws_char(c: char) -> (r: bool)
    ensures
        r == is_ws_char(c),
{
    c == ' ' || c == '\r' || c == '\n'
}

fn op_char(c: char) -> (r: bool)
    ensures
        r == is_op_char(c),
{
    c == '=' || c == '+' || c == '-' || c == '*' || c == '/' || c == '%' || c == '>' || c == '<'
        || c == '|' || c == '?' || c == ':'
}

fn punct_char(c: char) -> (r: bool)
    ensures
        r == is_punct_char(c),
{
    c == ';' || c == '(' || c == ')' || c == '{' || c == '}' || c == '.' || c == '!' || c == ','
}

fn word_start_char(c: char) -> (r: bool)
    ensures
        r == is_word_start_char(c),
{
    let u = c as u32;
    c == '_' || (97 <= u && u <= 122) || (65 <= u && u <= 90)
}

fn word_char(c: char) -> (r: bool)
    ensures
        r == is_word_char(c),
{
    word_start_char(c) || digit_char(c)
}

fn digit_char(c: char) -> (r: bool)
    ensures
        r == is_digit_char(c),
{
    let u = c as u32;
    48 <= u && u <= 57
}

fn digit_cont_char(c: char) -> (r: bool)
    ensures
        r == is_digit_cont_char(c),
{
    digit_char(c) || c == '_'
}

// ---------------------------------------------------------------------------
// The mathematical lexer
// ---------------------------------------------------------------------------

/// The first offset at or after `i` that does not hold whitespace.
pub open spec fn ws_end(s: Seq<char>, i: int) -> int
    decreases s.len() - i,
{
    if i < s.len() && is_ws_char(s[i]) {
        ws_end(s, i + 1)
    } else {
        i
    }
}

/// The end of the operator run beginning before `i`.
pub open spec fn op_end(s: Seq<char>, i: int) -> int
    decreases s.len() - i,
{
    if i < s.len() && is_op_char(s[i]) {
        op_end(s, i + 1)
    } else {
        i
    }
}

/// The end of the identifier run beginning before `i`.
pub open spec fn word_end(s: Seq<char>, i: int) -> int
    decreases s.len() - i,
{
    if i < s.len() && is_word_char(s[i]) {
        word_end(s, i + 1)
    } else {
        i
    }
}

/// The end of the digit run beginning before `i`.
pub open spec fn digit_end(s: Seq<char>, i: int) -> int
    decreases s.len() - i,
{
    if i < s.len() && is_digit_cont_char(s[i]) {
        digit_end(s, i + 1)
    } else {
        i
    }
}

/// The token an identifier run stands for: the dedicated keyword token when
/// the text matches a reserved word, `Variable` otherwise.
pub open spec fn word_token(w: Seq<char>) -> TokenView {
    if w == "var"@ {
        TokenView::Var
    } else if w == "let"@ {
        TokenView::Let
    } else if w == "const"@ {
        TokenView::Const
    } else if w == "undefined"@ {
        TokenView::Undefined
    } else if w == "null"@ {
        TokenView::Null
    } else if w == "await"@ {
        TokenView::Await
    } else if w == "async"@ {
        TokenView::Async
    } else if w == "function"@ {
        TokenView::Function
    } else if w == "with"@ {
        TokenView::With
    } else if w == "if"@ {
        TokenView::If
    } else if w == "switch"@ {
        TokenView::Switch
    } else if w == "case"@ {
        TokenView::Case
    } else if w == "break"@ {
        TokenView::Break
    } else if w == "continue"@ {
        TokenView::Continue
    } else if w == "for"@ {
        TokenView::For
    } else if w == "while"@ {
        TokenView::While
    } else {
        TokenView::Variable(w)
    }
}

/// One step of lexing: the token starting at offset `i` (with the offset
/// after it), a lexical error, or the end of the input.
pub enum LexStep {
    Tok { t: TokenView, next: int },
    Error { c: char, at: int },
    End,
}

/// The single token starting at offset `i` of `s`, after skipping
/// whitespace.  This is the contract of `Lex::next`.
pub open spec fn token_at(s: Seq<char>, i: int) -> LexStep {
    let j = ws_end(s, i);
    if j >= s.len() {
        LexStep::End
    } else {
        let c = s[j];
        if is_op_char(c) {
            LexStep::Tok { t: TokenView::Control(s.subrange(j, op_end(s, j + 1))), next: op_end(s, j + 1) }
        } else if is_punct_char(c) {
            LexStep::Tok { t: TokenView::Control(seq![c]), next: j + 1 }
        } else if is_word_start_char(c) {
            LexStep::Tok { t: word_token(s.subrange(j, word_end(s, j + 1))), next: word_end(s, j + 1) }
        } else if is_digit_char(c) {
            LexStep::Tok { t: TokenView::Digit(s.subrange(j, digit_end(s, j + 1))), next: digit_end(s, j + 1) }
        } else {
            LexStep::Error { c: c, at: j }
        }
    }
}

/// Every token from offset `i` to the end of the input or the first
/// lexical error, whichever comes first.
pub open spec fn lex_from(s: Seq<char>, i: int) -> Seq<TokenView>
    decreases s.len() - i,
{
    match token_at(s, i) {
        LexStep::Tok { t, next } => if i < next && next <= s.len() {
            seq![t] + lex_from(s, next)
        } else {
            seq![t]
        },
        LexStep::Error { .. } => Seq::empty(),
        LexStep::End => Seq::empty(),
    }
}

/// The lexical error that scanning from offset `i` runs into, if any.
pub open spec fn lex_err_from(s: Seq<char>, i: int) -> Option<LexError>
    decreases s.len() - i,
{
    match token_at(s, i) {
        LexStep::Tok { t, next } => if i < next && next <= s.len() {
            lex_err_from(s, next)
        } else {
            None
        },
        LexStep::Error { c, at } => Some(LexError { character: c, offset: at as usize }),
        LexStep::End => None,
    }
}

pub proof fn lemma_ws_end_bounds(s: Seq<char>, i: int)
    requires
        0 <= i <= s.len(),
    ensures
        i <= ws_end(s, i) <= s.len(),
        ws_end(s, i) < s.len() ==> !is_ws_char(s[ws_end(s, i)]),
        ws_end(s, ws_end(s, i)) == ws_end(s, i),
    decreases s.len() - i,
{
    if i < s.len() && is_ws_char(s[i]) {
        lemma_ws_end_bounds(s, i + 1);
    }
}

pub proof fn lemma_op_end_bounds(s: Seq<char>, i: int)
    requires
        0 <= i <= s.len(),
    ensures
        i <= op_end(s, i) <= s.len(),
    decreases s.len() - i,
{
    if i < s.len() && is_op_char(s[i]) {
        lemma_op_end_bounds(s, i + 1);
    }
}

pub proof fn lemma_word_end_bounds(s: Seq<char>, i: int)
    requires
        0 <= i <= s.len(),
    ensures
        i <= word_end(s, i) <= s.len(),
    decreases s.len() - i,
{
    if i < s.len() && is_word_char(s[i]) {
        lemma_word_end_bounds(s, i + 1);
    }
}

pub proof fn lemma_digit_end_bounds(s: Seq<char>, i: int)
    requires
        0 <= i <= s.len(),
    ensures
        i <= digit_end(s, i) <= s.len(),
    decreases s.len() - i,
{
    if i < s.len() && is_digit_cont_char(s[i]) {
        lemma_digit_end_bounds(s, i + 1);
    }
}

/// A produced token always stands strictly after the offset it was scanned
/// from, and never past the end of the input; an error offset is in range.
pub proof fn lemma_token_at_bounds(s: Seq<char>, i: int)
    requires
        0 <= i <= s.len(),
    ensures
        match token_at(s, i) {
            LexStep::Tok { t, next } => i < next <= s.len() && t != TokenView::EOF,
            LexStep::Error { c, at } => i <= at < s.len(),
            LexStep::End => true,
        },
{
    lemma_ws_end_bounds(s, i);
    let j = ws_end(s, i);
    if j < s.len() {
        lemma_op_end_bounds(s, j + 1);
        lemma_word_end_bounds(s, j + 1);
        lemma_digit_end_bounds(s, j + 1);
    }
}

// ---------------------------------------------------------------------------
// The executable lexer
// ---------------------------------------------------------------------------

/// The character-stream scanner: owns the source text and a character
/// offset, and produces tokens strictly left to right.
pub struct Lex {
    input: String,
    pos: usize,
}

impl Lex {
    /// The scanned character sequence.
    pub closed spec fn src(self) -> Seq<char> {
        self.input@
    }

    /// The current character offset.
    pub closed spec fn at(self) -> int {
        self.pos as int
    }

    /// The offset never runs past the end of the input.
    pub open spec fn wf(self) -> bool {
        0 <= self.at() <= self.src().len()
    }

    pub fn new(input: String) -> (r: Lex)
        ensures
            r.src() == input@,
            r.at() == 0,
            r.wf(),
    {
        Lex { input, pos: 0 }
    }

    /// Scans exactly one token starting at the current offset, advancing
    /// the offset past it; yields the end-of-file token once the input is
    /// exhausted (idempotently), and a `LexError` on a character that does
    /// not start any token.
    pub fn next(&mut self) -> (r: Result<Token, LexError>)
        requires
            old(self).wf(),
        ensures
            final(self).wf(),
            final(self).src() == old(self).src(),
            match token_at(old(self).src(), old(self).at()) {
                LexStep::Tok { t, next } => r matches Ok(tok) && tok@ == t && final(self).at()
                    == next,
                LexStep::End => r matches Ok(tok) && tok@ == TokenView::EOF && final(self).at()
                    == ws_end(old(self).src(), old(self).at()),
                LexStep::Error { c, at } => r matches Err(e) && e == (LexError {
                    character: c,
                    offset: at as usize,
                }) && final(self).at() == at,
            },
    {
        let ghost s = self.input@;
        let ghost start = self.pos as int;
        let n = self.input.as_str().unicode_len();
        loop
            invariant
                s == old(self).src(),
                start == old(self).at(),
                self.input@ == s,
                n == s.len(),
                0 <= self.pos <= n,
                ws_end(s, start) == ws_end(s, self.pos as int),
            decreases n - self.pos,
        {
            if self.pos == n {
                return Ok(Token::EOF);
            }
            let c = self.input.as_str().get_char(self.pos);
            if ws_char(c) {
                self.pos = self.pos + 1;
            } else if op_char(c) {
                let t = read_operation(&mut self.pos, self.input.as_str());
                return Ok(t);
            } else if punct_char(c) {
                let ghost j = self.pos as int;
                self.pos = self.pos + 1;
                let mut w = String::new();
                w.push(c);
                proof {
                    assert(s.subrange(j, j + 1) =~= seq![c]);
                    assert(w@ =~= seq![c]);
                }
                return Ok(Token::Control(w));
            } else if word_start_char(c) {
                let t = read_word(&mut self.pos, self.input.as_str());
                return Ok(t);
            } else if digit_char(c) {
                let t = read_digit(&mut self.pos, self.input.as_str());
                return Ok(t);
            } else {
                return Err(LexError { character: c, offset: self.pos });
            }
        }
    }
}

/// Scans the operator run starting at `*i`; greedy, so multi-character
/// operators come out as one `Control` token.
fn read_operation(i: &mut usize, source: &str) -> (t: Token)
    requires
        *old(i) < source@.len(),
        is_op_char(source@[*old(i) as int]),
    ensures
        *final(i) == op_end(source@, *old(i) + 1),
        *old(i) < *final(i) <= source@.len(),
        t@ == TokenView::Control(source@.subrange(*old(i) as int, *final(i) as int)),
{
    let ghost s = source@;
    let ghost start = *i as int;
    let n = source.unicode_len();
    let c = source.get_char(*i);
    let mut word = String::new();
    word.push(c);
    proof {
        assert(word@ =~= s.subrange(start, start + 1));
    }
    *i = *i + 1;
    while *i < n && op_char(source.get_char(*i))
        invariant
            source@ == s,
            n == s.len(),
            0 <= start,
            start + 1 <= *i as int <= n,
            op_end(s, start + 1) == op_end(s, *i as int),
            word@ == s.subrange(start, *i as int),
        decreases n - *i,
    {
        let d = source.get_char(*i);
        word.push(d);
        *i = *i + 1;
        proof {
            assert(s.subrange(start, *i as int) =~= s.subrange(start, *i - 1).push(s[*i - 1]));
        }
    }
    Token::Control(word)
}

/// Scans the identifier run starting at `*i` and resolves it against the
/// reserved-word table.
fn read_word(i: &mut usize, source: &str) -> (t: Token)
    requires
        *old(i) < source@.len(),
        is_word_start_char(source@[*old(i) as int]),
    ensures
        *final(i) == word_end(source@, *old(i) + 1),
        *old(i) < *final(i) <= source@.len(),
        t@ == word_token(source@.subrange(*old(i) as int, *final(i) as int)),
{
    let ghost s = source@;
    let ghost start = *i as int;
    let n = source.unicode_len();
    let c = source.get_char(*i);
    let mut word = String::new();
    word.push(c);
    proof {
        assert(word@ =~= s.subrange(start, start + 1));
    }
    *i = *i + 1;
    while *i < n && word_char(source.get_char(*i))
        invariant
            source@ == s,
            n == s.len(),
            0 <= start,
            start + 1 <= *i as int <= n,
            word_end(s, start + 1) == word_end(s, *i as int),
            word@ == s.subrange(start, *i as int),
        decreases n - *i,
    {
        let d = source.get_char(*i);
        word.push(d);
        *i = *i + 1;
        proof {
            assert(s.subrange(start, *i as int) =~= s.subrange(start, *i - 1).push(s[*i - 1]));
        }
    }
    if str_eq(word.as_str(), "var") {
        Token::Var
    } else if str_eq(word.as_str(), "let") {
        Token::Let
    } else if str_eq(word.as_str(), "const") {
        Token::Const
    } else if str_eq(word.as_str(), "undefined") {
        Token::Undefined
    } else if str_eq(word.as_str(), "null") {
        Token::Null
    } else if str_eq(word.as_str(), "await") {
        Token::Await
    } else if str_eq(word.as_str(), "async") {
        Token::Async
    } else if str_eq(word.as_str(), "function") {
        Token::Function
    } else if str_eq(word.as_str(), "with") {
        Token::With
    } else if str_eq(word.as_str(), "if") {
        Token::If
    } else if str_eq(word.as_str(), "switch") {
        Token::Switch
    } else if str_eq(word.as_str(), "case") {
        Token::Case
    } else if str_eq(word.as_str(), "break") {
        Token::Break
    } else if str_eq(word.as_str(), "continue") {
        Token::Continue
    } else if str_eq(word.as_str(), "for") {
        Token::For
    } else if str_eq(word.as_str(), "while") {
        Token::While
    } else {
        Token::Variable(word)
    }
}

/// Scans the digit run starting at `*i`; underscores may separate digits.
fn read_digit(i: &mut usize, source: &str) -> (t: Token)
    requires
        *old(i) < source@.len(),
        is_digit_char(source@[*old(i) as int]),
    ensures
        *final(i) == digit_end(source@, *old(i) + 1),
        *old(i) < *final(i) <= source@.len(),
        t@ == TokenView::Digit(source@.subrange(*old(i) as int, *final(i) as int)),
{
    let ghost s = source@;
    let ghost start = *i as int;
    let n = source.unicode_len();
    let c = source.get_char(*i);
    let mut word = String::new();
    word.push(c);
    proof {
        assert(word@ =~= s.subrange(start, start + 1));
    }
    *i = *i + 1;
    while *i < n && digit_cont_char(source.get_char(*i))
        invariant
            source@ == s,
            n == s.len(),
            0 <= start,
            start + 1 <= *i as int <= n,
            digit_end(s, start + 1) == digit_end(s, *i as int),
            word@ == s.subrange(start, *i as int),
        decreases n - *i,
    {
        let d = source.get_char(*i);
        word.push(d);
        *i = *i + 1;
        proof {
            assert(s.subrange(start, *i as int) =~= s.subrange(start, *i - 1).push(s[*i - 1]));
        }
    }
    Token::Digit(word)
}

// ---------------------------------------------------------------------------
// Rendering a token back to text, for error reporting and display
// ---------------------------------------------------------------------------

/// The text a token is rendered back to, as its source shows it: the
/// carried text for `Variable`, `Digit` and `Control`, the reserved word
/// itself for a keyword token, and a marker for the end-of-file token and
/// the variants no source text produces.
pub open spec fn token_text(t: TokenView) -> Seq<char> {
    match t {
        TokenView::Control(s) => s,
        TokenView::Variable(s) => s,
        TokenView::Digit(s) => s,
        TokenView::Var => "var"@,
        TokenView::Let => "let"@,
        TokenView::Const => "const"@,
        TokenView::Undefined => "undefined"@,
        TokenView::Null => "null"@,
        TokenView::Await => "await"@,
        TokenView::Async => "async"@,
        TokenView::Function => "function"@,
        TokenView::With => "with"@,
        TokenView::If => "if"@,
        TokenView::Switch => "switch"@,
        TokenView::Case => "case"@,
        TokenView::Break => "break"@,
        TokenView::Continue => "continue"@,
        TokenView::For => "for"@,
        TokenView::While => "while"@,
        TokenView::EOF => "EOF"@,
        _ => "token"@,
    }
}

impl Token {
    /// Renders the token back to its source text, as error messages show it.
    pub fn text(&self) -> (r: String)
        ensures
            r@ == token_text(self@),
    {
        match self {
            Token::Control(s) => s.clone(),
            Token::Variable(s) => s.clone(),
            Token::Digit(s) => s.clone(),
            Token::Var => "var".to_owned(),
            Token::Let => "let".to_owned(),
            Token::Const => "const".to_owned(),
            Token::Undefined => "undefined".to_owned(),
            Token::Null => "null".to_owned(),
            Token::Await => "await".to_owned(),
            Token::Async => "async".to_owned(),
            Token::Function => "function".to_owned(),
            Token::With => "with".to_owned(),
            Token::If => "if".to_owned(),
            Token::Switch => "switch".to_owned(),
            Token::Case => "case".to_owned(),
            Token::Break => "break".to_owned(),
            Token::Continue => "continue".to_owned(),
            Token::For => "for".to_owned(),
            Token::While => "while".to_owned(),
            Token::EOF => "EOF".to_owned(),
            Token::LF => "token".to_owned(),
            Token::CR => "token".to_owned(),
            Token::String => "token".to_owned(),
        }
    }
}

} // verus!
