use vstd::prelude::*;

verus! {

/// A token as the contracts see it: each text payload is a sequence of characters.
pub enum SpecToken {
    BracketRoundClosing,
    BracketRoundOpening,
    Identifier(Seq<char>),
    LineComment(Seq<char>),
    Number(Seq<char>),
    Operator(Seq<char>),
    Slash,
    String(Seq<char>),
    Whitespace(Seq<char>),
}

/// One lexical token.
///
/// A `Number` carries the literal's source text (for instance `1.5e3`); its
/// value as a 64-bit float is read from that text by the caller.
#[derive(Clone, Debug, PartialEq)]
pub enum Token {
    BracketRoundClosing,
    BracketRoundOpening,
    Identifier(String),
    LineComment(String),
    Number(String),
    Operator(String),
    Slash,
    String(String),
    Whitespace(String),
}

impl View for Token {
    type V = SpecToken;

    open spec fn view(&self) -> SpecToken {
        match self {
            Token::BracketRoundClosing => SpecToken::BracketRoundClosing,
            Token::BracketRoundOpening => SpecToken::BracketRoundOpening,
            Token::Identifier(t) => SpecToken::Identifier(t@),
            Token::LineComment(t) => SpecToken::LineComment(t@),
            Token::Number(t) => SpecToken::Number(t@),
            Token::Operator(t) => SpecToken::Operator(t@),
            Token::Slash => SpecToken::Slash,
            Token::String(t) => SpecToken::String(t@),
            Token::Whitespace(t) => SpecToken::Whitespace(t@),
        }
    }
}

/// The source text that a token was read from.
pub open spec fn lexeme(t: SpecToken) -> Seq<char> {
    match t {
        SpecToken::BracketRoundClosing => seq![')'],
        SpecToken::BracketRoundOpening => seq!['('],
        SpecToken::Identifier(x) => x,
        SpecToken::LineComment(x) => seq!['/', '/'] + x,
        SpecToken::Number(x) => x,
        SpecToken::Operator(x) => x,
        SpecToken::Slash => seq!['/'],
        SpecToken::String(x) => seq!['"'] + x + seq!['"'],
        SpecToken::Whitespace(x) => x,
    }
}

/// The failure of a tokenization, as the contracts see it. Offsets count characters.
pub enum SpecLexError {
    EmptyInput,
    UnmatchedInput { offset: nat, rest: Seq<char> },
    UnterminatedLiteral { offset: nat },
}

/// Why an input could not be tokenized.
#[derive(Clone, Debug, PartialEq)]
pub enum LexError {
    /// The input holds no characters.
    EmptyInput,
    /// No token rule applies at `offset` (in characters); `rest` is the text from there on.
    UnmatchedInput { offset: usize, rest: String },
    /// The string literal opened at `offset` is never closed.
    UnterminatedLiteral { offset: usize },
}

impl View for LexError {
    type V = SpecLexError;

    open spec fn view(&self) -> SpecLexError {
        match self {
            LexError::EmptyInput => SpecLexError::EmptyInput,
            LexError::UnmatchedInput { offset, rest } => SpecLexError::UnmatchedInput {
                offset: *offset as nat,
                rest: rest@,
            },
            LexError::UnterminatedLiteral { offset } => SpecLexError::UnterminatedLiteral {
                offset: *offset as nat,
            },
        }
    }
}

} // verus!
