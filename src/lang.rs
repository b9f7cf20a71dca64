use vstd::prelude::*;
pub use crate::ast::{Component, GateType, Program, Subcircuit};
pub use crate::parser::{Expected, ParseError, Parser};
use crate::text::{
    alphabetic, alphanumeric, whitespace, uppercase, is_alphabetic, is_alphanumeric,
    is_whitespace, to_uppercase, same_text,
};

verus! {

/// One token of circuit source text.
#[derive(Debug)]
pub enum TokenKind {
    Inputs,
    Outputs,
    In,
    Out,
    Comma,
    ParenOpen,
    ParenClose,
    Newline,
    EOF,
    And,
    Or,
    Not,
    Nand,
    Nor,
    Xor,
    Xnor,
    Identifier(String),
}

/// Tokens are equal when they are the same keyword or punctuation mark, or
/// identifiers with the same text.
pub open spec fn same_token(a: TokenKind, b: TokenKind) -> bool {
    match (a, b) {
        (TokenKind::Identifier(x), TokenKind::Identifier(y)) => x@ == y@,
        (TokenKind::Identifier(_), _) => false,
        (_, TokenKind::Identifier(_)) => false,
        _ => a == b,
    }
}

impl PartialEq for TokenKind {
    fn eq(&self, o: &TokenKind) -> (r: bool) {
        match (self, o) {
            (TokenKind::Identifier(x), TokenKind::Identifier(y)) => x.eq(y),
            (TokenKind::Inputs, TokenKind::Inputs) => true,
            (TokenKind::Outputs, TokenKind::Outputs) => true,
            (TokenKind::In, TokenKind::In) => true,
            (TokenKind::Out, TokenKind::Out) => true,
            (TokenKind::Comma, TokenKind::Comma) => true,
            (TokenKind::ParenOpen, TokenKind::ParenOpen) => true,
            (TokenKind::ParenClose, TokenKind::ParenClose) => true,
            (TokenKind::Newline, TokenKind::Newline) => true,
            (TokenKind::EOF, TokenKind::EOF) => true,
            (TokenKind::And, TokenKind::And) => true,
            (TokenKind::Or, TokenKind::Or) => true,
            (TokenKind::Not, TokenKind::Not) => true,
            (TokenKind::Nand, TokenKind::Nand) => true,
            (TokenKind::Nor, TokenKind::Nor) => true,
            (TokenKind::Xor, TokenKind::Xor) => true,
            (TokenKind::Xnor, TokenKind::Xnor) => true,
            _ => false,
        }
    }
}

impl vstd::std_specs::cmp::PartialEqSpecImpl for TokenKind {
    open spec fn obeys_eq_spec() -> bool {
        true
    }

    open spec fn eq_spec(&self, o: &TokenKind) -> bool {
        same_token(*self, *o)
    }
}

/// The kind of a token, without the text of an identifier.
#[derive(Debug, Clone, Copy, PartialEq, Eq, Structural)]
pub enum TokenClass {
    Inputs,
    Outputs,
    In,
    Out,
    Comma,
    ParenOpen,
    ParenClose,
    Newline,
    EOF,
    And,
    Or,
    Not,
    Nand,
    Nor,
    Xor,
    Xnor,
    Identifier,
}

pub open spec fn class_of(t: TokenKind) -> TokenClass {
    match t {
        TokenKind::Inputs => TokenClass::Inputs,
        TokenKind::Outputs => TokenClass::Outputs,
        TokenKind::In => TokenClass::In,
        TokenKind::Out => TokenClass::Out,
        TokenKind::Comma => TokenClass::Comma,
        TokenKind::ParenOpen => TokenClass::ParenOpen,
        TokenKind::ParenClose => TokenClass::ParenClose,
        TokenKind::Newline => TokenClass::Newline,
        TokenKind::EOF => TokenClass::EOF,
        TokenKind::And => TokenClass::And,
        TokenKind::Or => TokenClass::Or,
        TokenKind::Not => TokenClass::Not,
        TokenKind::Nand => TokenClass::Nand,
        TokenKind::Nor => TokenClass::Nor,
        TokenKind::Xor => TokenClass::Xor,
        TokenKind::Xnor => TokenClass::Xnor,
        TokenKind::Identifier(_) => TokenClass::Identifier,
    }
}

/// The kind of a token.
pub fn token_class(t: &TokenKind) -> (r: TokenClass)
    ensures
        r == class_of(*t),
{
    match t {
        TokenKind::Inputs => TokenClass::Inputs,
        TokenKind::Outputs => TokenClass::Outputs,
        TokenKind::In => TokenClass::In,
        TokenKind::Out => TokenClass::Out,
        TokenKind::Comma => TokenClass::Comma,
        TokenKind::ParenOpen => TokenClass::ParenOpen,
        TokenKind::ParenClose => TokenClass::ParenClose,
        TokenKind::Newline => TokenClass::Newline,
        TokenKind::EOF => TokenClass::EOF,
        TokenKind::And => TokenClass::And,
        TokenKind::Or => TokenClass::Or,
        TokenKind::Not => TokenClass::Not,
        TokenKind::Nand => TokenClass::Nand,
        TokenKind::Nor => TokenClass::Nor,
        TokenKind::Xor => TokenClass::Xor,
        TokenKind::Xnor => TokenClass::Xnor,
        TokenKind::Identifier(_) => TokenClass::Identifier,
    }
}

/// A 1-based line and column in the source text.
#[derive(Debug, Clone, Copy, PartialEq, Eq, Structural)]
pub struct Location {
    pub line: usize,
    pub column: usize,
}

impl Location {
    fn new(line: usize, column: usize) -> (r: Self)
        ensures
            r.line == line,
            r.column == column,
    {
        Location { line, column }
    }
}

/// Errors of lexical analysis.
#[derive(Debug, Clone, Copy, PartialEq, Eq, Structural)]
pub enum LexerError {
    UnexpectedCharacter(char, Location),
}

/// The 1-based line of position `p` of `s`: one more than the newlines before it.
pub open spec fn line_at(s: Seq<char>, p: int) -> nat
    decreases p,
{
    if p <= 0 {
        1
    } else if p - 1 < s.len() && s[p - 1] == '\n' {
        line_at(s, p - 1) + 1
    } else {
        line_at(s, p - 1)
    }
}

/// The 1-based column of position `p` of `s`: one more than the characters
/// between it and the last newline before it.
pub open spec fn column_at(s: Seq<char>, p: int) -> nat
    decreases p,
{
    if p <= 0 {
        1
    } else if p - 1 < s.len() && s[p - 1] == '\n' {
        1
    } else {
        column_at(s, p - 1) + 1
    }
}

pub proof fn lemma_location_bounds(s: Seq<char>, p: int)
    requires
        0 <= p,
    ensures
        1 <= line_at(s, p) <= p + 1,
        1 <= column_at(s, p) <= p + 1,
    decreases p,
{
    if p > 0 {
        lemma_location_bounds(s, p - 1);
    }
}

/// The first position at or after `p` that holds no blank other than a newline.
pub open spec fn skip_blanks(s: Seq<char>, p: int) -> int
    decreases s.len() - p,
{
    if 0 <= p < s.len() && s[p] != '\n' && whitespace(s[p]) {
        skip_blanks(s, p + 1)
    } else {
        p
    }
}

/// The end of the run of alphanumeric characters and underscores at `p`.
pub open spec fn word_end(s: Seq<char>, p: int) -> int
    decreases s.len() - p,
{
    if 0 <= p < s.len() && (alphanumeric(s[p]) || s[p] == '_') {
        word_end(s, p + 1)
    } else {
        p
    }
}

pub proof fn lemma_skip_blanks(s: Seq<char>, p: int)
    requires
        0 <= p <= s.len(),
    ensures
        p <= skip_blanks(s, p) <= s.len(),
    decreases s.len() - p,
{
    if 0 <= p < s.len() && s[p] != '\n' && whitespace(s[p]) {
        lemma_skip_blanks(s, p + 1);
    }
}

/// The keyword whose upper-case spelling is `u`, if any.
pub open spec fn keyword(u: Seq<char>) -> Option<TokenKind> {
    if u == "INPUTS"@ {
        Some(TokenKind::Inputs)
    } else if u == "OUTPUTS"@ {
        Some(TokenKind::Outputs)
    } else if u == "IN"@ {
        Some(TokenKind::In)
    } else if u == "OUT"@ {
        Some(TokenKind::Out)
    } else if u == "AND"@ {
        Some(TokenKind::And)
    } else if u == "OR"@ {
        Some(TokenKind::Or)
    } else if u == "NOT"@ {
        Some(TokenKind::Not)
    } else if u == "NAND"@ {
        Some(TokenKind::Nand)
    } else if u == "NOR"@ {
        Some(TokenKind::Nor)
    } else if u == "XOR"@ {
        Some(TokenKind::Xor)
    } else if u == "XNOR"@ {
        Some(TokenKind::Xnor)
    } else {
        None
    }
}

/// The token for the word `w`: a keyword when `w` upper-cased spells one,
/// otherwise an identifier holding `w` as written.
pub open spec fn word_token(w: Seq<char>, t: TokenKind) -> bool {
    match keyword(uppercase(w)) {
        Some(k) => t == k,
        None => t is Identifier && t->Identifier_0@ == w,
    }
}

/// Where the scan of one token that starts at `p` ends.
pub open spec fn token_end(s: Seq<char>, p: int) -> int {
    let q = skip_blanks(s, p);
    if q >= s.len() {
        q
    } else if alphabetic(s[q]) {
        word_end(s, q)
    } else {
        q + 1
    }
}

/// What the scan of one token that starts at `p` yields.
pub open spec fn scanned(s: Seq<char>, p: int, r: Result<TokenKind, LexerError>) -> bool {
    let q = skip_blanks(s, p);
    if q >= s.len() {
        r == Ok::<TokenKind, LexerError>(TokenKind::EOF)
    } else {
        let c = s[q];
        if alphabetic(c) {
            r is Ok && word_token(s.subrange(q, word_end(s, q)), r->Ok_0)
        } else if c == ',' {
            r == Ok::<TokenKind, LexerError>(TokenKind::Comma)
        } else if c == '(' {
            r == Ok::<TokenKind, LexerError>(TokenKind::ParenOpen)
        } else if c == ')' {
            r == Ok::<TokenKind, LexerError>(TokenKind::ParenClose)
        } else if c == '\n' {
            r == Ok::<TokenKind, LexerError>(TokenKind::Newline)
        } else {
            r is Err && r->Err_0 == LexerError::UnexpectedCharacter(
                c,
                Location { line: line_at(s, q) as usize, column: column_at(s, q) as usize },
            )
        }
    }
}

/// The token for a word whose upper-case form is `upper`: the keyword that
/// `upper` spells, or else an identifier holding `word` as written.
pub fn keyword_token(upper: &str, word: &str) -> (r: TokenKind)
    ensures
        match keyword(upper@) {
        Some(k) => r == k,
        None => r is Identifier && r->Identifier_0@ == word@,
    },
{
    if same_text(upper, "INPUTS") {
        TokenKind::Inputs
    } else if same_text(upper, "OUTPUTS") {
        TokenKind::Outputs
    } else if same_text(upper, "IN") {
        TokenKind::In
    } else if same_text(upper, "OUT") {
        TokenKind::Out
    } else if same_text(upper, "AND") {
        TokenKind::And
    } else if same_text(upper, "OR") {
        TokenKind::Or
    } else if same_text(upper, "NOT") {
        TokenKind::Not
    } else if same_text(upper, "NAND") {
        TokenKind::Nand
    } else if same_text(upper, "NOR") {
        TokenKind::Nor
    } else if same_text(upper, "XOR") {
        TokenKind::Xor
    } else if same_text(upper, "XNOR") {
        TokenKind::Xnor
    } else {
        TokenKind::Identifier(String::from_str(word))
    }
}

/// Turns source text into tokens, one at a time.
#[derive(Debug)]
pub struct Lexer {
    source: String,
    length: usize,
    position: usize,
    line: usize,
    column: usize,
    current_char: Option<char>,
}

impl Lexer {
    /// The text being scanned.
    pub closed spec fn text(&self) -> Seq<char> {
        self.source@
    }

    /// The position of the next character to scan.
    pub closed spec fn pos(&self) -> int {
        self.position as int
    }

    /// The line of the next character to scan.
    pub closed spec fn line(&self) -> nat {
        self.line as nat
    }

    /// The column of the next character to scan.
    pub closed spec fn column(&self) -> nat {
        self.column as nat
    }

    pub closed spec fn wf(&self) -> bool {
        &&& self.length == self.source@.len()
        &&& self.length < usize::MAX
        &&& self.position <= self.length
        &&& self.line == line_at(self.source@, self.position as int)
        &&& self.column == column_at(self.source@, self.position as int)
        &&& self.current_char == if self.position < self.length {
            Some(self.source@[self.position as int])
        } else {
            None
        }
    }

    /// Creates a lexer at the start of `source`.
    pub fn new(source: String) -> (r: Self)
        requires
            source@.len() < usize::MAX,
        ensures
            r.wf(),
            r.text() == source@,
            r.pos() == 0,
    {
        let length = source.as_str().unicode_len();
        let current_char = if length > 0 {
            Some(source.as_str().get_char(0))
        } else {
            None
        };
        Lexer { source, length, position: 0, line: 1, column: 1, current_char }
    }

    fn get_location(&self) -> (r: Location)
        requires
            self.wf(),
        ensures
            r.line == line_at(self.text(), self.pos()),
            r.column == column_at(self.text(), self.pos()),
    {
        Location::new(self.line, self.column)
    }

    /// Moves past the current character.
    fn advance(&mut self)
        requires
            old(self).wf(),
        ensures
            final(self).wf(),
            final(self).text() == old(self).text(),
            old(self).pos() < old(self).text().len() ==> final(self).pos() == old(self).pos() + 1,
            old(self).pos() >= old(self).text().len() ==> final(self).pos() == old(self).pos()
                && final(self).line() == old(self).line() && final(self).column() == old(
                self,
            ).column(),
    {
        if let Some(c) = self.current_char {
            proof {
                lemma_location_bounds(self.source@, self.position as int + 1);
            }
            if c == '\n' {
                self.line = self.line + 1;
                self.column = 1;
            } else {
                self.column = self.column + 1;
            }
            self.position = self.position + 1;
            self.current_char = if self.position < self.length {
                Some(self.source.as_str().get_char(self.position))
            } else {
                None
            };
        }
    }

    /// Skips blanks other than newlines.
    fn skip_whitespace(&mut self)
        requires
            old(self).wf(),
        ensures
            final(self).wf(),
            final(self).text() == old(self).text(),
            final(self).pos() == skip_blanks(old(self).text(), old(self).pos()),
    {
        loop
            invariant
                self.wf(),
                self.text() == old(self).text(),
                skip_blanks(self.text(), self.pos()) == skip_blanks(
                    old(self).text(),
                    old(self).pos(),
                ),
            ensures
                skip_blanks(self.text(), self.pos()) == self.pos(),
            decreases self.text().len() - self.pos(),
        {
            match self.current_char {
                Some(c) if c != '\n' && is_whitespace(c) => self.advance(),
                _ => break,
            }
        }
    }

    /// Scans the next token; a character that starts no token is an error,
    /// and the lexer still moves past it.
    pub fn get_next_token(&mut self) -> (r: Result<TokenKind, LexerError>)
        requires
            old(self).wf(),
        ensures
            final(self).wf(),
            final(self).text() == old(self).text(),
            final(self).pos() == token_end(old(self).text(), old(self).pos()),
            scanned(old(self).text(), old(self).pos(), r),
            r != Ok::<TokenKind, LexerError>(TokenKind::EOF) ==> final(self).pos() > old(self).pos(),
    {
        proof {
            lemma_skip_blanks(self.text(), self.pos());
        }
        self.skip_whitespace();
        let location = self.get_location();
        match self.current_char {
            None => Ok(TokenKind::EOF),
            Some(c) => {
                if is_alphabetic(c) {
                    Ok(self.identifier())
                } else if c == ',' {
                    self.advance();
                    Ok(TokenKind::Comma)
                } else if c == '(' {
                    self.advance();
                    Ok(TokenKind::ParenOpen)
                } else if c == ')' {
                    self.advance();
                    Ok(TokenKind::ParenClose)
                } else if c == '\n' {
                    self.advance();
                    Ok(TokenKind::Newline)
                } else {
                    self.advance();
                    Err(LexerError::UnexpectedCharacter(c, location))
                }
            },
        }
    }

    /// Scans the word at the current position (alphanumeric characters and
    /// underscores) into a keyword or identifier token.
    pub fn identifier(&mut self) -> (r: TokenKind)
        requires
            old(self).wf(),
        ensures
            final(self).wf(),
            final(self).text() == old(self).text(),
            final(self).pos() == word_end(old(self).text(), old(self).pos()),
            word_token(old(self).text().subrange(old(self).pos(), final(self).pos()), r),
            old(self).pos() < old(self).text().len() && alphabetic(old(self).text()[old(self).pos()])
                ==> final(self).pos() > old(self).pos(),
    {
        let start = self.position;
        loop
            invariant
                self.wf(),
                self.text() == old(self).text(),
                start == old(self).pos(),
                start <= self.pos(),
                word_end(self.text(), self.pos()) == word_end(old(self).text(), old(self).pos()),
            ensures
                word_end(self.text(), self.pos()) == self.pos(),
                self.pos() == start && start < self.text().len() ==> !alphabetic(
                    self.text()[start as int],
                ),
            decreases self.text().len() - self.pos(),
        {
            match self.current_char {
                Some(c) if c == '_' || is_alphanumeric(c) => self.advance(),
                _ => break,
            }
        }
        let word = self.source.as_str().substring_char(start, self.position);
        let upper = to_uppercase(word);
        keyword_token(upper.as_str(), word)
    }
}

/// `toks` are the tokens, end of input excluded, that scanning `s` from `p`
/// yields before it reaches position `q`, none of them an error.
pub open spec fn lexes_prefix(s: Seq<char>, p: int, toks: Seq<TokenKind>, q: int) -> bool
    decreases toks.len(),
{
    if toks.len() == 0 {
        p == q
    } else {
        &&& scanned(s, p, Ok(toks[0]))
        &&& !(toks[0] is EOF)
        &&& lexes_prefix(s, token_end(s, p), toks.drop_first(), q)
    }
}

proof fn lemma_lexes_prefix_push(s: Seq<char>, p: int, toks: Seq<TokenKind>, q: int, t: TokenKind)
    requires
        lexes_prefix(s, p, toks, q),
        scanned(s, q, Ok(t)),
        !(t is EOF),
    ensures
        lexes_prefix(s, p, toks.push(t), token_end(s, q)),
    decreases toks.len(),
{
    let ts = toks.push(t);
    if toks.len() > 0 {
        lemma_lexes_prefix_push(s, token_end(s, p), toks.drop_first(), q, t);
        assert(ts.drop_first() == toks.drop_first().push(t));
    } else {
        assert(ts.drop_first() == Seq::<TokenKind>::empty());
        assert(lexes_prefix(s, token_end(s, p), ts.drop_first(), token_end(s, q)));
    }
    assert(ts[0] == if toks.len() > 0 { toks[0] } else { t });
}

/// Scanning `s` from its start yields `toks` and then the end of input.
pub open spec fn lexes_all(s: Seq<char>, toks: Seq<TokenKind>) -> bool {
    exists|q: int| #[trigger] lexes_prefix(s, 0, toks, q) && scanned(s, q, Ok(TokenKind::EOF))
}

/// Scanning `s` from its start meets the lexical error `e` before the end of input.
pub open spec fn lex_fails(s: Seq<char>, e: LexerError) -> bool {
    exists|toks: Seq<TokenKind>, q: int|
        #[trigger] lexes_prefix(s, 0, toks, q) && scanned(s, q, Err(e))
}

/// Scans the whole of `source`: every token up to the end of input, which is
/// left out, or the first lexical error.
pub fn tokenize(source: String) -> (r: Result<Vec<TokenKind>, LexerError>)
    requires
        source@.len() < usize::MAX,
    ensures
        match r {
            Ok(v) => lexes_all(source@, v@),
            Err(e) => lex_fails(source@, e),
        },
{
    let ghost s = source@;
    let mut lexer = Lexer::new(source);
    let mut tokens: Vec<TokenKind> = Vec::new();
    loop
        invariant
            lexer.wf(),
            lexer.text() == s,
            s == source@,
            lexes_prefix(s, 0, tokens@, lexer.pos()),
        decreases s.len() - lexer.pos(),
    {
        let ghost q = lexer.pos();
        let next = lexer.get_next_token();
        match next {
            Err(e) => {
                assert(lex_fails(s, e)) by {
                    assert(lexes_prefix(s, 0, tokens@, q) && scanned(s, q, Err(e)));
                }
                return Err(e);
            },
            Ok(t) => {
                if let TokenKind::EOF = t {
                    assert(lexes_all(s, tokens@)) by {
                        assert(lexes_prefix(s, 0, tokens@, q) && scanned(s, q, Ok(TokenKind::EOF)));
                    }
                    return Ok(tokens);
                }
                proof {
                    lemma_lexes_prefix_push(s, 0, tokens@, q, t);
                }
                tokens.push(t);
            },
        }
    }
}

} // verus!
