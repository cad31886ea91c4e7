//! The token alphabet of the source language, together with its
//! specification-level model.

use vstd::prelude::*;

verus! {

/// One lexical token. Three variants carry a payload (identifier text,
/// literal text, a small signed number); the rest are single sigils,
/// delimiters, the two-character `==`, and the end-of-input marker.
#[derive(Debug, PartialEq)]
pub enum Token {
    Identifier(String),
    Literal(String),
    Number(i16),
    LBrace,
    RBrace,
    Gt,
    Colon,
    Eof,
    Hash,
    Comma,
    At,
    Percent,
    Semicolon,
    Tilde,
    Dollar,
    Equals,
    QuestionMark,
    LBracket,
    RBracket,
}

/// The mathematical model of a token: payloads become character
/// sequences and unbounded integers.
pub enum TokenModel {
    Identifier(Seq<char>),
    Literal(Seq<char>),
    Number(int),
    LBrace,
    RBrace,
    Gt,
    Colon,
    Eof,
    Hash,
    Comma,
    At,
    Percent,
    Semicolon,
    Tilde,
    Dollar,
    Equals,
    QuestionMark,
    LBracket,
    RBracket,
}

impl View for Token {
    type V = TokenModel;

    open spec fn view(&self) -> TokenModel {
        match self {
            Token::Identifier(s) => TokenModel::Identifier(s@),
            Token::Literal(s) => TokenModel::Literal(s@),
            Token::Number(n) => TokenModel::Number(*n as int),
            Token::LBrace => TokenModel::LBrace,
            Token::RBrace => TokenModel::RBrace,
            Token::Gt => TokenModel::Gt,
            Token::Colon => TokenModel::Colon,
            Token::Eof => TokenModel::Eof,
            Token::Hash => TokenModel::Hash,
            Token::Comma => TokenModel::Comma,
            Token::At => TokenModel::At,
            Token::Percent => TokenModel::Percent,
            Token::Semicolon => TokenModel::Semicolon,
            Token::Tilde => TokenModel::Tilde,
            Token::Dollar => TokenModel::Dollar,
            Token::Equals => TokenModel::Equals,
            Token::QuestionMark => TokenModel::QuestionMark,
            Token::LBracket => TokenModel::LBracket,
            Token::RBracket => TokenModel::RBracket,
        }
    }
}

impl DeepView for Token {
    type V = TokenModel;

    open spec fn deep_view(&self) -> TokenModel {
        self.view()
    }
}

} // verus!
