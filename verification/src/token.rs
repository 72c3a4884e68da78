//! The tokens that a specialisation list and a parameter's type are made of.

use crate::text::same_text;
use vstd::prelude::*;

verus! {

/// What a literal's source text denotes where it is a string literal (plain
/// or raw, with its escapes resolved), and `None` where it is anything else.
pub uninterp spec fn string_literal_value(text: Seq<char>) -> Option<Seq<char>>;

/// The text that an optional string holds.
pub open spec fn option_text(s: Option<String>) -> Option<Seq<char>> {
    match s {
        Some(s) => Some(s@),
        None => None,
    }
}

/// Calls `litrs::StringLit::parse` on the source text and, where that
/// succeeds, `StringLit::into_value`. The result is the value that the
/// literal parser gives for this text: nothing is claimed of what it is, only
/// that it is decided by the text alone.
#[verifier::external_body]
fn parse_string_literal(text: &str) -> (r: Option<String>)
    ensures
        option_text(r) == string_literal_value(text@),
{
    match litrs::StringLit::parse(text.to_string()) {
        Ok(lit) => Some(lit.into_value()),
        Err(_) => None,
    }
}

/// The brackets around a group of tokens.
#[derive(Clone, Copy, Debug, PartialEq, Eq, Hash, Structural)]
pub enum Delimiter {
    Parenthesis,
    Brace,
    Bracket,
    Invisible,
}

/// One token tree.
#[derive(Debug, PartialEq, Eq)]
pub enum Token {
    /// An identifier or keyword.
    Ident(String),
    /// One punctuation character.
    Punct(char),
    /// A literal: its source text and, where that is a string literal, the
    /// string it denotes.
    Literal { text: String, value: Option<String> },
    /// A delimited sequence of tokens.
    Group(Delimiter, Vec<Token>),
}

impl Token {
    /// The literal token with the given source text.
    pub fn literal(text: String) -> (r: Token)
        ensures
            r matches Token::Literal { text: t, value: v } && t@ == text@ && option_text(v)
                == string_literal_value(text@),
    {
        let value = parse_string_literal(text.as_str());
        Token::Literal { text, value }
    }

    /// Whether the token is the identifier `word`.
    pub open spec fn is_ident(self, word: Seq<char>) -> bool {
        self matches Token::Ident(name) && name@ == word
    }

    /// Whether the token is the punctuation character `ch`.
    pub open spec fn is_punct(self, ch: char) -> bool {
        self matches Token::Punct(c) && c == ch
    }

    /// Whether the token is the identifier `word`.
    pub fn matches_ident(&self, word: &str) -> (r: bool)
        ensures
            r == self.is_ident(word@),
    {
        match self {
            Token::Ident(name) => same_text(name.as_str(), word),
            _ => false,
        }
    }

    /// Whether the token is the punctuation character `ch`.
    pub fn matches_punct(&self, ch: char) -> (r: bool)
        ensures
            r == self.is_punct(ch),
    {
        match self {
            Token::Punct(c) => *c == ch,
            _ => false,
        }
    }

    /// The string that the token denotes, where it is a string literal.
    pub open spec fn string_value(self) -> Option<Seq<char>> {
        match self {
            Token::Literal { text, value } => option_text(value),
            _ => None,
        }
    }
}

} // verus!
