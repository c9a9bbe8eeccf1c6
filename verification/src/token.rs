use vstd::prelude::*;

verus! {

/// The kind of a token as the tokenizer of a language reports it.
#[derive(Clone, Copy, Debug, PartialEq, Eq, Structural)]
pub enum TokenType {
    Comment,
    Operator,
    Keyword,
    Identifier,
    TypeIdentifier,
    Character,
    String,
    Integer,
    Float,
    Invalid,
    Ignored,
}

/// The name of a token kind shown in the status bar, where it has one.
pub open spec fn token_display_name(token_type: TokenType) -> Option<Seq<char>> {
    match token_type {
        TokenType::Comment => Some("comment"@),
        TokenType::Operator => Some("operator"@),
        TokenType::Keyword => Some("keyword"@),
        TokenType::Identifier => Some("identifier"@),
        TokenType::TypeIdentifier => Some("type identifier"@),
        TokenType::Character => Some("character"@),
        TokenType::String => Some("string"@),
        TokenType::Integer => Some("integer"@),
        TokenType::Float => Some("float"@),
        TokenType::Invalid => None,
        TokenType::Ignored => None,
    }
}

fn display_name_of(token_type: TokenType) -> (r: Option<&'static str>)
    ensures
        match (r, token_display_name(token_type)) {
            (Some(s), Some(n)) => s@ == n,
            (None, None) => true,
            _ => false,
        },
{
    match token_type {
        TokenType::Comment => Some("comment"),
        TokenType::Operator => Some("operator"),
        TokenType::Keyword => Some("keyword"),
        TokenType::Identifier => Some("identifier"),
        TokenType::TypeIdentifier => Some("type identifier"),
        TokenType::Character => Some("character"),
        TokenType::String => Some("string"),
        TokenType::Integer => Some("integer"),
        TokenType::Float => Some("float"),
        TokenType::Invalid => None,
        TokenType::Ignored => None,
    }
}

/// A token of a file buffer: its kind and the range of characters
/// `index .. index + length` that it covers.
#[derive(Clone, Copy, Debug, PartialEq, Eq, Structural)]
pub struct Token {
    pub token_type: TokenType,
    pub index: usize,
    pub length: usize,
}

/// The words that selections jump between in word mode are the tokens of the
/// buffer.
pub type Word = Token;

impl Token {
    pub fn new(token_type: TokenType, index: usize, length: usize) -> (r: Self)
        ensures
            r.token_type == token_type,
            r.index == index,
            r.length == length,
    {
        Self { token_type, index, length }
    }

    /// The name of the token's kind, or `None` for invalid and ignored tokens.
    pub fn display_name(&self) -> (r: Option<&'static str>)
        ensures
            match (r, token_display_name(self.token_type)) {
                (Some(s), Some(n)) => s@ == n,
                (None, None) => true,
                _ => false,
            },
    {
        display_name_of(self.token_type)
    }
}

/// A token of the editor module: its kind, where it starts and how many characters it spans.
#[derive(Clone, Copy, Debug, PartialEq, Eq, Structural)]
pub struct EditorToken {
    pub token_type: TokenType,
    pub index: usize,
    pub length: usize,
}

impl EditorToken {
    pub fn new(token_type: TokenType, index: usize, length: usize) -> (r: Self)
        ensures
            r.token_type == token_type,
            r.index == index,
            r.length == length,
    {
        Self { token_type, index, length }
    }

    /// The name of the token's kind, or `None` for invalid and ignored tokens.
    pub fn display_name(&self) -> (r: Option<&'static str>)
        ensures
            match (r, token_display_name(self.token_type)) {
                (Some(s), Some(n)) => s@ == n,
                (None, None) => true,
                _ => false,
            },
    {
        display_name_of(self.token_type)
    }
}

} // verus!
