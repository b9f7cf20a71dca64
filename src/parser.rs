use vstd::prelude::*;
use crate::lang::{TokenKind, TokenClass, class_of, token_class, LexerError, same_token, tokenize, lexes_all, lex_fails};
use crate::ast::{
    GateType, GateKind, Component, ComponentModel, Subcircuit, SubcircuitModel, Program,
    ProgramModel, names_view, components_view, subcircuits_view, find_subcircuit,
    lookup_subcircuit,
};

verus! {

/// What the grammar expects where parsing fails.
#[derive(Debug, Clone, Copy, PartialEq, Eq, Structural)]
pub enum Expected {
    /// This keyword or punctuation mark.
    Token(TokenClass),
    /// A signal, instance or subcircuit name.
    Name,
    /// A gate keyword or a subcircuit name, opening a component.
    Gate,
    /// A statement: a component, a subcircuit definition, a blank line, or
    /// the end of the enclosing block.
    Statement,
}

/// Why a token sequence is not a program.
#[derive(Debug, Clone, Copy, PartialEq, Eq, Structural)]
pub enum ParseError {
    /// The token at `position`, of kind `found`, does not fit the grammar,
    /// which expects `expected` there.
    UnexpectedToken { position: usize, expected: Expected, found: TokenClass },
    /// The tokens ended where the grammar expects `expected`.
    UnexpectedEnd { expected: Expected },
    /// The subcircuit definition starting at this index reuses a name.
    DuplicateSubcircuit(usize),
}

/// The error for the token at index `i`, where `expected` was due.
pub open spec fn failure(toks: Seq<TokenKind>, i: int, expected: Expected) -> ParseError {
    if 0 <= i < toks.len() {
        ParseError::UnexpectedToken { position: i as usize, expected, found: class_of(toks[i]) }
    } else {
        ParseError::UnexpectedEnd { expected }
    }
}

/// The error for the token at index `i`, where the token `k` was due.
pub open spec fn mismatch(toks: Seq<TokenKind>, i: int, k: TokenKind) -> ParseError {
    failure(toks, i, Expected::Token(class_of(k)))
}

/// Index `i` holds the keyword or punctuation mark `k`.
pub open spec fn is_at(toks: Seq<TokenKind>, i: int, k: TokenKind) -> bool {
    0 <= i < toks.len() && same_token(toks[i], k)
}

/// The text of the identifier at index `i`.
pub open spec fn ident_at(toks: Seq<TokenKind>, i: int) -> Option<Seq<char>> {
    if 0 <= i < toks.len() && toks[i] is Identifier {
        Some(toks[i]->Identifier_0@)
    } else {
        None
    }
}

/// The lower-case spelling of a keyword token.
pub open spec fn keyword_spelling(t: TokenKind) -> Option<Seq<char>> {
    match t {
        TokenKind::Inputs => Some("inputs"@),
        TokenKind::Outputs => Some("outputs"@),
        TokenKind::In => Some("in"@),
        TokenKind::Out => Some("out"@),
        TokenKind::And => Some("and"@),
        TokenKind::Or => Some("or"@),
        TokenKind::Not => Some("not"@),
        TokenKind::Nand => Some("nand"@),
        TokenKind::Nor => Some("nor"@),
        TokenKind::Xor => Some("xor"@),
        TokenKind::Xnor => Some("xnor"@),
        _ => None,
    }
}

/// The signal or instance name at index `i`. Where the grammar expects a
/// name, any word is one: an identifier stands for its text, and a word
/// that spells a keyword (which matches regardless of case) for the
/// keyword in lower case.
pub open spec fn name_at(toks: Seq<TokenKind>, i: int) -> Option<Seq<char>> {
    if 0 <= i < toks.len() && toks[i] is Identifier {
        Some(toks[i]->Identifier_0@)
    } else if 0 <= i < toks.len() {
        keyword_spelling(toks[i])
    } else {
        None
    }
}

/// What the token at `i` instantiates when it opens a statement.
pub open spec fn gate_at(toks: Seq<TokenKind>, i: int) -> Option<GateKind> {
    if 0 <= i < toks.len() {
        match toks[i] {
            TokenKind::And => Some(GateKind::And),
            TokenKind::Or => Some(GateKind::Or),
            TokenKind::Not => Some(GateKind::Not),
            TokenKind::Nand => Some(GateKind::Nand),
            TokenKind::Nor => Some(GateKind::Nor),
            TokenKind::Xor => Some(GateKind::Xor),
            TokenKind::Xnor => Some(GateKind::Xnor),
            TokenKind::Identifier(n) => Some(GateKind::Subcircuit(n@)),
            _ => None,
        }
    } else {
        None
    }
}

/// `Identifier (',' Identifier)*` at `i`, after the names `acc`; yields all
/// the names and the index after the list.
pub open spec fn names_from(toks: Seq<TokenKind>, i: int, acc: Seq<Seq<char>>) -> Result<
    (Seq<Seq<char>>, int),
    ParseError,
>
    decreases toks.len() - i,
{
    match name_at(toks, i) {
        None => Err(failure(toks, i, Expected::Name)),
        Some(n) => if is_at(toks, i + 1, TokenKind::Comma) {
            names_from(toks, i + 2, acc.push(n))
        } else {
            Ok((acc.push(n), i + 1))
        },
    }
}

/// A list of one or more names at `i`.
pub open spec fn names_at(toks: Seq<TokenKind>, i: int) -> Result<(Seq<Seq<char>>, int), ParseError> {
    names_from(toks, i, Seq::empty())
}

/// A list of names at `i`, possibly empty.
pub open spec fn optional_names_at(toks: Seq<TokenKind>, i: int) -> Result<
    (Seq<Seq<char>>, int),
    ParseError,
> {
    if name_at(toks, i) is Some {
        names_at(toks, i)
    } else {
        Ok((Seq::empty(), i))
    }
}

/// `k IdentList Newline` at `i`, for the `INPUTS` and `OUTPUTS` lines.
pub open spec fn section_at(toks: Seq<TokenKind>, i: int, k: TokenKind) -> Result<
    (Seq<Seq<char>>, int),
    ParseError,
> {
    if !is_at(toks, i, k) {
        Err(mismatch(toks, i, k))
    } else {
        match names_at(toks, i + 1) {
            Err(e) => Err(e),
            Ok((ns, j)) => if is_at(toks, j, TokenKind::Newline) {
                Ok((ns, j + 1))
            } else {
                Err(mismatch(toks, j, TokenKind::Newline))
            },
        }
    }
}

/// `'IN' '(' [IdentList] ')' 'OUT' '(' IdentList ')'` at `i`.
pub open spec fn wiring_at(toks: Seq<TokenKind>, i: int) -> Result<
    (Seq<Seq<char>>, Seq<Seq<char>>, int),
    ParseError,
> {
    if !is_at(toks, i, TokenKind::In) {
        Err(mismatch(toks, i, TokenKind::In))
    } else if !is_at(toks, i + 1, TokenKind::ParenOpen) {
        Err(mismatch(toks, i + 1, TokenKind::ParenOpen))
    } else {
        match optional_names_at(toks, i + 2) {
            Err(e) => Err(e),
            Ok((ins, j)) => if !is_at(toks, j, TokenKind::ParenClose) {
                Err(mismatch(toks, j, TokenKind::ParenClose))
            } else if !is_at(toks, j + 1, TokenKind::Out) {
                Err(mismatch(toks, j + 1, TokenKind::Out))
            } else if !is_at(toks, j + 2, TokenKind::ParenOpen) {
                Err(mismatch(toks, j + 2, TokenKind::ParenOpen))
            } else {
                match names_at(toks, j + 3) {
                    Err(e) => Err(e),
                    Ok((outs, k)) => if is_at(toks, k, TokenKind::ParenClose) {
                        Ok((ins, outs, k + 1))
                    } else {
                        Err(mismatch(toks, k, TokenKind::ParenClose))
                    },
                }
            },
        }
    }
}

/// `Gate Identifier Wiring` at `i`.
pub open spec fn component_at(toks: Seq<TokenKind>, i: int) -> Result<(ComponentModel, int), ParseError> {
    match gate_at(toks, i) {
        None => Err(failure(toks, i, Expected::Gate)),
        Some(g) => match name_at(toks, i + 1) {
            None => Err(failure(toks, i + 1, Expected::Name)),
            Some(id) => match wiring_at(toks, i + 2) {
                Err(e) => Err(e),
                Ok((ins, outs, j)) => Ok(
                    (ComponentModel { gate: g, identifier: id, inputs: ins, outputs: outs }, j),
                ),
            },
        },
    }
}

/// The components of a subcircuit body at `i`, after `acc`, up to and past
/// its closing parenthesis; blank lines are skipped.
pub open spec fn body_from(toks: Seq<TokenKind>, i: int, acc: Seq<ComponentModel>) -> Result<
    (Seq<ComponentModel>, int),
    ParseError,
>
    decreases toks.len() - i,
{
    if !(0 <= i < toks.len()) {
        Err(failure(toks, i, Expected::Statement))
    } else if toks[i] is Newline {
        body_from(toks, i + 1, acc)
    } else if toks[i] is ParenClose {
        Ok((acc, i + 1))
    } else if gate_at(toks, i) is Some {
        match component_at(toks, i) {
            Err(e) => Err(e),
            Ok((c, j)) => if i < j <= toks.len() {
                body_from(toks, j, acc.push(c))
            } else {
                Err(failure(toks, i, Expected::Statement))
            },
        }
    } else {
        Err(failure(toks, i, Expected::Statement))
    }
}

/// `Identifier Wiring '(' Body ')'` at `i`: a subcircuit definition.
pub open spec fn subcircuit_at(toks: Seq<TokenKind>, i: int) -> Result<(SubcircuitModel, int), ParseError> {
    match ident_at(toks, i) {
        None => Err(failure(toks, i, Expected::Name)),
        Some(n) => match wiring_at(toks, i + 1) {
            Err(e) => Err(e),
            Ok((ins, outs, j)) => if !is_at(toks, j, TokenKind::ParenOpen) {
                Err(mismatch(toks, j, TokenKind::ParenOpen))
            } else {
                match body_from(toks, j + 1, Seq::empty()) {
                    Err(e) => Err(e),
                    Ok((cs, k)) => Ok(
                        (SubcircuitModel { name: n, inputs: ins, outputs: outs, components: cs }, k),
                    ),
                }
            },
        }
    }
}

/// The statements from `i` to the end of the tokens (or an end-of-input
/// token), after the components `comps` and definitions `subs`.
pub open spec fn items_from(
    toks: Seq<TokenKind>,
    i: int,
    comps: Seq<ComponentModel>,
    subs: Seq<SubcircuitModel>,
) -> Result<(Seq<ComponentModel>, Seq<SubcircuitModel>), ParseError>
    decreases toks.len() - i,
{
    if !(0 <= i < toks.len()) || toks[i] is EOF {
        Ok((comps, subs))
    } else if toks[i] is Newline {
        items_from(toks, i + 1, comps, subs)
    } else if ident_at(toks, i) is Some && is_at(toks, i + 1, TokenKind::In) {
        match subcircuit_at(toks, i) {
            Err(e) => Err(e),
            Ok((d, j)) => if find_subcircuit(subs, d.name) is Some {
                Err(ParseError::DuplicateSubcircuit(i as usize))
            } else if i < j <= toks.len() {
                items_from(toks, j, comps, subs.push(d))
            } else {
                Err(failure(toks, i, Expected::Statement))
            },
        }
    } else if gate_at(toks, i) is Some {
        match component_at(toks, i) {
            Err(e) => Err(e),
            Ok((c, j)) => if i < j <= toks.len() {
                items_from(toks, j, comps.push(c), subs)
            } else {
                Err(failure(toks, i, Expected::Statement))
            },
        }
    } else {
        Err(failure(toks, i, Expected::Statement))
    }
}

/// The program that the tokens from `i` spell.
pub open spec fn program_from(toks: Seq<TokenKind>, i: int) -> Result<ProgramModel, ParseError> {
    match section_at(toks, i, TokenKind::Inputs) {
        Err(e) => Err(e),
        Ok((ins, j)) => match section_at(toks, j, TokenKind::Outputs) {
            Err(e) => Err(e),
            Ok((outs, k)) => match items_from(toks, k, Seq::empty(), Seq::empty()) {
                Err(e) => Err(e),
                Ok((cs, ds)) => Ok(
                    ProgramModel { inputs: ins, outputs: outs, components: cs, subcircuits: ds },
                ),
            },
        },
    }
}

/// The program that a whole token sequence spells.
pub open spec fn parse_tokens(toks: Seq<TokenKind>) -> Result<ProgramModel, ParseError> {
    program_from(toks, 0)
}

proof fn lemma_names_from(toks: Seq<TokenKind>, i: int, acc: Seq<Seq<char>>)
    ensures
        names_from(toks, i, acc) matches Ok((ns, j)) ==> i < j <= toks.len() && 0 <= i,
    decreases toks.len() - i,
{
    if name_at(toks, i) is Some && is_at(toks, i + 1, TokenKind::Comma) {
        lemma_names_from(toks, i + 2, acc.push(name_at(toks, i)->Some_0));
    }
}

proof fn lemma_wiring_at(toks: Seq<TokenKind>, i: int)
    ensures
        wiring_at(toks, i) matches Ok((ins, outs, j)) ==> i < j <= toks.len(),
{
    if is_at(toks, i, TokenKind::In) && is_at(toks, i + 1, TokenKind::ParenOpen) {
        lemma_names_from(toks, i + 2, Seq::empty());
        if let Ok((ins, j)) = optional_names_at(toks, i + 2) {
            lemma_names_from(toks, j + 3, Seq::empty());
        }
    }
}

proof fn lemma_component_at(toks: Seq<TokenKind>, i: int)
    ensures
        component_at(toks, i) matches Ok((c, j)) ==> i < j <= toks.len(),
{
    lemma_wiring_at(toks, i + 2);
}

proof fn lemma_body_from(toks: Seq<TokenKind>, i: int, acc: Seq<ComponentModel>)
    ensures
        body_from(toks, i, acc) matches Ok((cs, j)) ==> i < j <= toks.len(),
    decreases toks.len() - i,
{
    if 0 <= i < toks.len() {
        if toks[i] is Newline {
            lemma_body_from(toks, i + 1, acc);
        } else if !(toks[i] is ParenClose) && gate_at(toks, i) is Some {
            if let Ok((c, j)) = component_at(toks, i) {
                if i < j <= toks.len() {
                    lemma_body_from(toks, j, acc.push(c));
                }
            }
        }
    }
}

proof fn lemma_subcircuit_at(toks: Seq<TokenKind>, i: int)
    ensures
        subcircuit_at(toks, i) matches Ok((d, j)) ==> i < j <= toks.len(),
{
    lemma_wiring_at(toks, i + 1);
    if let Ok((ins, outs, j)) = wiring_at(toks, i + 1) {
        lemma_body_from(toks, j + 1, Seq::empty());
    }
}

/// A recursive-descent parser over a token sequence, one token of lookahead.
pub struct Parser {
    tokens: Vec<TokenKind>,
    position: usize,
}

impl Parser {
    /// The tokens being parsed.
    pub closed spec fn toks(&self) -> Seq<TokenKind> {
        self.tokens@
    }

    /// The index of the next token.
    pub closed spec fn pos(&self) -> int {
        self.position as int
    }

    pub closed spec fn wf(&self) -> bool {
        self.position <= self.tokens@.len()
    }

    pub fn new(tokens: Vec<TokenKind>) -> (r: Self)
        ensures
            r.wf(),
            r.toks() == tokens@,
            r.pos() == 0,
    {
        Parser { tokens, position: 0 }
    }

    fn current_token(&self) -> (r: Option<&TokenKind>)
        ensures
            match r {
                Some(t) => 0 <= self.pos() < self.toks().len() && *t == self.toks()[self.pos()],
                None => !(0 <= self.pos() < self.toks().len()),
            },
    {
        if self.position < self.tokens.len() {
            Some(&self.tokens[self.position])
        } else {
            None
        }
    }

    fn advance(&mut self)
        requires
            old(self).wf(),
            old(self).pos() < old(self).toks().len(),
        ensures
            final(self).wf(),
            final(self).toks() == old(self).toks(),
            final(self).pos() == old(self).pos() + 1,
    {
        let n = self.tokens.len();
        assert(self.position < n);
        self.position = self.position + 1;
    }

    fn error_here(&self, expected: Expected) -> (e: ParseError)
        ensures
            e == failure(self.toks(), self.pos(), expected),
    {
        if self.position < self.tokens.len() {
            ParseError::UnexpectedToken {
                position: self.position,
                expected,
                found: token_class(&self.tokens[self.position]),
            }
        } else {
            ParseError::UnexpectedEnd { expected }
        }
    }

    fn expect(&mut self, expected: TokenKind) -> (r: Result<(), ParseError>)
        requires
            old(self).wf(),
        ensures
            final(self).wf(),
            final(self).toks() == old(self).toks(),
            is_at(old(self).toks(), old(self).pos(), expected) ==> r is Ok && final(self).pos()
                == old(self).pos() + 1,
            !is_at(old(self).toks(), old(self).pos(), expected) ==> r == Err::<(), ParseError>(
                mismatch(old(self).toks(), old(self).pos(), expected),
            ) && final(self).pos() == old(self).pos(),
    {
        let class = token_class(&expected);
        match self.current_token() {
            Some(token) => {
                if *token == expected {
                    self.advance();
                    Ok(())
                } else {
                    Err(self.error_here(Expected::Token(class)))
                }
            },
            None => Err(self.error_here(Expected::Token(class))),
        }
    }

    /// The name at the current position, if there is one.
    fn name_here(&self) -> (r: Option<String>)
        requires
            self.wf(),
        ensures
            match name_at(self.toks(), self.pos()) {
                Some(n) => r is Some && r->Some_0@ == n,
                None => r is None,
            },
    {
        let text = match self.current_token() {
            Some(TokenKind::Identifier(n)) => {
                return Some(n.clone());
            },
            Some(TokenKind::Inputs) => "inputs",
            Some(TokenKind::Outputs) => "outputs",
            Some(TokenKind::In) => "in",
            Some(TokenKind::Out) => "out",
            Some(TokenKind::And) => "and",
            Some(TokenKind::Or) => "or",
            Some(TokenKind::Not) => "not",
            Some(TokenKind::Nand) => "nand",
            Some(TokenKind::Nor) => "nor",
            Some(TokenKind::Xor) => "xor",
            Some(TokenKind::Xnor) => "xnor",
            _ => {
                return None;
            },
        };
        Some(String::from_str(text))
    }

    /// One or more comma-separated names.
    fn parse_names(&mut self) -> (r: Result<Vec<String>, ParseError>)
        requires
            old(self).wf(),
        ensures
            final(self).wf(),
            final(self).toks() == old(self).toks(),
            match names_at(old(self).toks(), old(self).pos()) {
                Ok((ns, j)) => r is Ok && names_view(r->Ok_0@) == ns && final(self).pos() == j,
                Err(e) => r == Err::<Vec<String>, ParseError>(e),
            },
    {
        let ghost toks = self.toks();
        let ghost start = self.pos();
        let mut names: Vec<String> = Vec::new();
        assert(names_view(names@) == Seq::<Seq<char>>::empty());
        loop
            invariant
                self.wf(),
                toks == old(self).toks(),
                start == old(self).pos(),
                self.toks() == toks,
                names_from(toks, start, Seq::empty()) == names_from(
                    toks,
                    self.pos(),
                    names_view(names@),
                ),
            decreases toks.len() - self.pos(),
        {
            let ghost acc = names_view(names@);
            match self.name_here() {
                Some(n) => {
                    let ghost text = n@;
                    names.push(n);
                    assert(names_view(names@) == acc.push(text));
                    self.advance();
                    match self.current_token() {
                        Some(TokenKind::Comma) => self.advance(),
                        _ => {
                            return Ok(names);
                        },
                    }
                },
                _ => {
                    return Err(self.error_here(Expected::Name));
                },
            }
        }
    }

    /// Zero or more comma-separated names.
    fn parse_optional_names(&mut self) -> (r: Result<Vec<String>, ParseError>)
        requires
            old(self).wf(),
        ensures
            final(self).wf(),
            final(self).toks() == old(self).toks(),
            match optional_names_at(old(self).toks(), old(self).pos()) {
                Ok((ns, j)) => r is Ok && names_view(r->Ok_0@) == ns && final(self).pos() == j,
                Err(e) => r == Err::<Vec<String>, ParseError>(e),
            },
    {
        match self.name_here() {
            Some(_) => self.parse_names(),
            None => {
                let v: Vec<String> = Vec::new();
                assert(names_view(v@) == Seq::<Seq<char>>::empty());
                Ok(v)
            },
        }
    }

    fn parse_section(&mut self, keyword: TokenKind) -> (r: Result<Vec<String>, ParseError>)
        requires
            old(self).wf(),
        ensures
            final(self).wf(),
            final(self).toks() == old(self).toks(),
            match section_at(old(self).toks(), old(self).pos(), keyword) {
                Ok((ns, j)) => r is Ok && names_view(r->Ok_0@) == ns && final(self).pos() == j,
                Err(e) => r == Err::<Vec<String>, ParseError>(e),
            },
    {
        match self.expect(keyword) {
            Err(e) => {
                return Err(e);
            },
            Ok(()) => {},
        }
        let names = match self.parse_names() {
            Err(e) => {
                return Err(e);
            },
            Ok(names) => names,
        };
        match self.expect(TokenKind::Newline) {
            Err(e) => Err(e),
            Ok(()) => Ok(names),
        }
    }

    fn parse_inputs_section(&mut self) -> (r: Result<Vec<String>, ParseError>)
        requires
            old(self).wf(),
        ensures
            final(self).wf(),
            final(self).toks() == old(self).toks(),
            match section_at(old(self).toks(), old(self).pos(), TokenKind::Inputs) {
                Ok((ns, j)) => r is Ok && names_view(r->Ok_0@) == ns && final(self).pos() == j,
                Err(e) => r == Err::<Vec<String>, ParseError>(e),
            },
    {
        self.parse_section(TokenKind::Inputs)
    }

    fn parse_outputs_section(&mut self) -> (r: Result<Vec<String>, ParseError>)
        requires
            old(self).wf(),
        ensures
            final(self).wf(),
            final(self).toks() == old(self).toks(),
            match section_at(old(self).toks(), old(self).pos(), TokenKind::Outputs) {
                Ok((ns, j)) => r is Ok && names_view(r->Ok_0@) == ns && final(self).pos() == j,
                Err(e) => r == Err::<Vec<String>, ParseError>(e),
            },
    {
        self.parse_section(TokenKind::Outputs)
    }

    /// `IN(...) OUT(...)`: the input names, possibly none, and the output names.
    fn parse_wiring(&mut self) -> (r: Result<(Vec<String>, Vec<String>), ParseError>)
        requires
            old(self).wf(),
        ensures
            final(self).wf(),
            final(self).toks() == old(self).toks(),
            match wiring_at(old(self).toks(), old(self).pos()) {
                Ok((ins, outs, j)) => r is Ok && names_view(r->Ok_0.0@) == ins && names_view(
                    r->Ok_0.1@,
                ) == outs && final(self).pos() == j,
                Err(e) => r == Err::<(Vec<String>, Vec<String>), ParseError>(e),
            },
    {
        match self.expect(TokenKind::In) {
            Err(e) => {
                return Err(e);
            },
            Ok(()) => {},
        }
        match self.expect(TokenKind::ParenOpen) {
            Err(e) => {
                return Err(e);
            },
            Ok(()) => {},
        }
        let inputs = match self.parse_optional_names() {
            Err(e) => {
                return Err(e);
            },
            Ok(v) => v,
        };
        match self.expect(TokenKind::ParenClose) {
            Err(e) => {
                return Err(e);
            },
            Ok(()) => {},
        }
        match self.expect(TokenKind::Out) {
            Err(e) => {
                return Err(e);
            },
            Ok(()) => {},
        }
        match self.expect(TokenKind::ParenOpen) {
            Err(e) => {
                return Err(e);
            },
            Ok(()) => {},
        }
        let outputs = match self.parse_names() {
            Err(e) => {
                return Err(e);
            },
            Ok(v) => v,
        };
        match self.expect(TokenKind::ParenClose) {
            Err(e) => Err(e),
            Ok(()) => Ok((inputs, outputs)),
        }
    }

    /// One gate or subcircuit instance: `GATE name IN(...) OUT(...)`.
    fn parse_component(&mut self) -> (r: Result<Component, ParseError>)
        requires
            old(self).wf(),
        ensures
            final(self).wf(),
            final(self).toks() == old(self).toks(),
            match component_at(old(self).toks(), old(self).pos()) {
                Ok((c, j)) => r is Ok && r->Ok_0@ == c && final(self).pos() == j,
                Err(e) => r == Err::<Component, ParseError>(e),
            },
    {
        let gate_type = match self.current_token() {
            Some(TokenKind::And) => GateType::And,
            Some(TokenKind::Or) => GateType::Or,
            Some(TokenKind::Not) => GateType::Not,
            Some(TokenKind::Nand) => GateType::Nand,
            Some(TokenKind::Nor) => GateType::Nor,
            Some(TokenKind::Xor) => GateType::Xor,
            Some(TokenKind::Xnor) => GateType::Xnor,
            Some(TokenKind::Identifier(n)) => GateType::Subcircuit(n.clone()),
            _ => {
                return Err(self.error_here(Expected::Gate));
            },
        };
        self.advance();
        let identifier = match self.name_here() {
            Some(n) => n,
            None => {
                return Err(self.error_here(Expected::Name));
            },
        };
        self.advance();
        match self.parse_wiring() {
            Err(e) => Err(e),
            Ok((inputs, outputs)) => Ok(Component { gate_type, identifier, inputs, outputs }),
        }
    }

    /// The components of a subcircuit body, through its closing parenthesis.
    fn parse_body(&mut self) -> (r: Result<Vec<Component>, ParseError>)
        requires
            old(self).wf(),
        ensures
            final(self).wf(),
            final(self).toks() == old(self).toks(),
            match body_from(old(self).toks(), old(self).pos(), Seq::empty()) {
                Ok((cs, j)) => r is Ok && components_view(r->Ok_0@) == cs && final(self).pos() == j,
                Err(e) => r == Err::<Vec<Component>, ParseError>(e),
            },
    {
        let ghost toks = self.toks();
        let ghost start = self.pos();
        let mut comps: Vec<Component> = Vec::new();
        assert(components_view(comps@) == Seq::<ComponentModel>::empty());
        loop
            invariant
                self.wf(),
                toks == old(self).toks(),
                start == old(self).pos(),
                self.toks() == toks,
                body_from(toks, start, Seq::empty()) == body_from(
                    toks,
                    self.pos(),
                    components_view(comps@),
                ),
            decreases toks.len() - self.pos(),
        {
            let ghost acc = components_view(comps@);
            let ghost i = self.pos();
            match self.current_token() {
                Some(TokenKind::Newline) => self.advance(),
                Some(TokenKind::ParenClose) => {
                    self.advance();
                    return Ok(comps);
                },
                Some(TokenKind::And) | Some(TokenKind::Or) | Some(TokenKind::Not) | Some(
                    TokenKind::Nand,
                ) | Some(TokenKind::Nor) | Some(TokenKind::Xor) | Some(TokenKind::Xnor) | Some(
                    TokenKind::Identifier(_),
                ) => {
                    proof {
                        lemma_component_at(toks, i);
                    }
                    match self.parse_component() {
                        Err(e) => {
                            return Err(e);
                        },
                        Ok(c) => {
                            comps.push(c);
                            assert(components_view(comps@) == acc.push(c@));
                        },
                    }
                },
                _ => {
                    return Err(self.error_here(Expected::Statement));
                },
            }
        }
    }

    /// A subcircuit definition: `name IN(...) OUT(...) ( components )`.
    fn parse_subcircuit(&mut self) -> (r: Result<Subcircuit, ParseError>)
        requires
            old(self).wf(),
        ensures
            final(self).wf(),
            final(self).toks() == old(self).toks(),
            match subcircuit_at(old(self).toks(), old(self).pos()) {
                Ok((d, j)) => r is Ok && r->Ok_0@ == d && final(self).pos() == j,
                Err(e) => r == Err::<Subcircuit, ParseError>(e),
            },
    {
        let name = match self.current_token() {
            Some(TokenKind::Identifier(n)) => n.clone(),
            _ => {
                return Err(self.error_here(Expected::Name));
            },
        };
        self.advance();
        let (inputs, outputs) = match self.parse_wiring() {
            Err(e) => {
                return Err(e);
            },
            Ok(w) => w,
        };
        match self.expect(TokenKind::ParenOpen) {
            Err(e) => {
                return Err(e);
            },
            Ok(()) => {},
        }
        match self.parse_body() {
            Err(e) => Err(e),
            Ok(components) => Ok(Subcircuit { name, inputs, outputs, components }),
        }
    }

    /// Whether the token after the current one is `IN`.
    fn next_is_in(&self) -> (r: bool)
        requires
            self.wf(),
            self.pos() < self.toks().len(),
        ensures
            r == is_at(self.toks(), self.pos() + 1, TokenKind::In),
    {
        let n = self.tokens.len();
        self.position < n - 1 && self.tokens[self.position + 1] == TokenKind::In
    }

    /// The statements after the header lines: components and subcircuit
    /// definitions, up to the end of the tokens or an end-of-input token.
    fn parse_component_list(&mut self) -> (r: Result<(Vec<Component>, Vec<Subcircuit>), ParseError>)
        requires
            old(self).wf(),
        ensures
            final(self).wf(),
            final(self).toks() == old(self).toks(),
            match items_from(old(self).toks(), old(self).pos(), Seq::empty(), Seq::empty()) {
                Ok((cs, ds)) => r is Ok && components_view(r->Ok_0.0@) == cs && subcircuits_view(
                    r->Ok_0.1@,
                ) == ds,
                Err(e) => r == Err::<(Vec<Component>, Vec<Subcircuit>), ParseError>(e),
            },
    {
        let ghost toks = self.toks();
        let ghost start = self.pos();
        let mut comps: Vec<Component> = Vec::new();
        let mut subs: Vec<Subcircuit> = Vec::new();
        assert(components_view(comps@) == Seq::<ComponentModel>::empty());
        assert(subcircuits_view(subs@) == Seq::<SubcircuitModel>::empty());
        loop
            invariant
                self.wf(),
                toks == old(self).toks(),
                start == old(self).pos(),
                self.toks() == toks,
                items_from(toks, start, Seq::empty(), Seq::empty()) == items_from(
                    toks,
                    self.pos(),
                    components_view(comps@),
                    subcircuits_view(subs@),
                ),
            decreases toks.len() - self.pos(),
        {
            let ghost cacc = components_view(comps@);
            let ghost sacc = subcircuits_view(subs@);
            let ghost i = self.pos();
            match self.current_token() {
                None | Some(TokenKind::EOF) => {
                    return Ok((comps, subs));
                },
                Some(TokenKind::Newline) => self.advance(),
                Some(TokenKind::Identifier(_)) if self.next_is_in() => {
                    proof {
                        lemma_subcircuit_at(toks, i);
                    }
                    let start_index = self.position;
                    match self.parse_subcircuit() {
                        Err(e) => {
                            return Err(e);
                        },
                        Ok(d) => {
                            if lookup_subcircuit(&subs, &d.name).is_some() {
                                return Err(ParseError::DuplicateSubcircuit(start_index));
                            }
                            subs.push(d);
                            assert(subcircuits_view(subs@) == sacc.push(d@));
                        },
                    }
                },
                Some(TokenKind::And) | Some(TokenKind::Or) | Some(TokenKind::Not) | Some(
                    TokenKind::Nand,
                ) | Some(TokenKind::Nor) | Some(TokenKind::Xor) | Some(TokenKind::Xnor) | Some(
                    TokenKind::Identifier(_),
                ) => {
                    proof {
                        lemma_component_at(toks, i);
                    }
                    match self.parse_component() {
                        Err(e) => {
                            return Err(e);
                        },
                        Ok(c) => {
                            comps.push(c);
                            assert(components_view(comps@) == cacc.push(c@));
                        },
                    }
                },
                _ => {
                    return Err(self.error_here(Expected::Statement));
                },
            }
        }
    }

    /// Parses a whole program: the `INPUTS` line, the `OUTPUTS` line, then
    /// components and subcircuit definitions.
    pub fn parse_program(&mut self) -> (r: Result<Program, ParseError>)
        requires
            old(self).wf(),
        ensures
            final(self).wf(),
            final(self).toks() == old(self).toks(),
            match program_from(old(self).toks(), old(self).pos()) {
                Ok(m) => r is Ok && r->Ok_0@ == m,
                Err(e) => r == Err::<Program, ParseError>(e),
            },
    {
        let inputs = match self.parse_inputs_section() {
            Err(e) => {
                return Err(e);
            },
            Ok(v) => v,
        };
        let outputs = match self.parse_outputs_section() {
            Err(e) => {
                return Err(e);
            },
            Ok(v) => v,
        };
        match self.parse_component_list() {
            Err(e) => Err(e),
            Ok((components, subcircuits)) => Ok(Program { inputs, outputs, components, subcircuits }),
        }
    }
}

/// Why source text is not a program.
#[derive(Debug, Clone, Copy, PartialEq, Eq, Structural)]
pub enum SourceError {
    Lexical(LexerError),
    Syntax(ParseError),
}

/// Scans and parses a whole source text.
pub fn parse_source(source: String) -> (r: Result<Program, SourceError>)
    requires
        source@.len() < usize::MAX,
    ensures
        match r {
            Ok(p) => exists|toks: Seq<TokenKind>|
                #[trigger] lexes_all(source@, toks) && parse_tokens(toks) == Ok::<
                    ProgramModel,
                    ParseError,
                >(p@),
            Err(SourceError::Lexical(e)) => lex_fails(source@, e),
            Err(SourceError::Syntax(e)) => exists|toks: Seq<TokenKind>|
                #[trigger] lexes_all(source@, toks) && parse_tokens(toks) == Err::<
                    ProgramModel,
                    ParseError,
                >(e),
        },
{
    let ghost s = source@;
    match tokenize(source) {
        Err(e) => Err(SourceError::Lexical(e)),
        Ok(tokens) => {
            let ghost toks = tokens@;
            let mut parser = Parser::new(tokens);
            match parser.parse_program() {
                Ok(p) => {
                    assert(lexes_all(s, toks) && parse_tokens(toks) == Ok::<ProgramModel, ParseError>(p@));
                    Ok(p)
                },
                Err(e) => {
                    assert(lexes_all(s, toks) && parse_tokens(toks) == Err::<ProgramModel, ParseError>(e));
                    Err(SourceError::Syntax(e))
                },
            }
        },
    }
}

} // verus!
