//! The lexical categories of the language and the words that name them in
//! messages.

use crate::decimal::{append_int, int_text};
use vstd::prelude::*;
use vstd::string::*;

verus! {

/// One lexical unit of the source text.
#[derive(Debug, Clone, PartialEq, Eq)]
pub enum Token {
    /// A string literal; the payload is the text between the delimiters.
    String(String),
    /// A number literal.
    Number(i64),
    /// The name of a simple type, as written.
    SimpleType(String),
    /// The separator `|` of a union type.
    Pipe,
    /// One unit of indentation.
    Tab,
    /// The `:` that opens a type annotation.
    Colon,
    /// The `=` that opens an initializer.
    Equal,
    /// An identifier.
    Variable(String),
    /// The end of the input; the tokenizer never yields it, it only names the
    /// end of the input in messages.
    EOF,
}

/// The mathematical value of a [`Token`]: the same categories over sequences
/// of characters.
pub ghost enum TokenView {
    String(Seq<char>),
    Number(i64),
    SimpleType(Seq<char>),
    Pipe,
    Tab,
    Colon,
    Equal,
    Variable(Seq<char>),
    EOF,
}

impl TokenView {
    /// How the token is named in a message.
    pub open spec fn text(self) -> Seq<char> {
        match self {
            TokenView::String(value) => "string '"@ + value + "'"@,
            TokenView::Number(value) => "number '"@ + int_text(value as int) + "'"@,
            TokenView::SimpleType(value) => "type '"@ + value + "'"@,
            TokenView::Pipe => "pipe"@,
            TokenView::Tab => "tab"@,
            TokenView::Colon => "colon"@,
            TokenView::Equal => "equal"@,
            TokenView::Variable(value) => "variable '"@ + value + "'"@,
            TokenView::EOF => "EOF"@,
        }
    }
}

impl View for Token {
    type V = TokenView;

    open spec fn view(&self) -> TokenView {
        match self {
            Token::String(value) => TokenView::String(value@),
            Token::Number(value) => TokenView::Number(*value),
            Token::SimpleType(value) => TokenView::SimpleType(value@),
            Token::Pipe => TokenView::Pipe,
            Token::Tab => TokenView::Tab,
            Token::Colon => TokenView::Colon,
            Token::Equal => TokenView::Equal,
            Token::Variable(value) => TokenView::Variable(value@),
            Token::EOF => TokenView::EOF,
        }
    }
}

/// `head`, then `value`, then a closing quote.
fn quoted(head: &str, value: &str) -> (text: String)
    ensures
        text@ == head@ + value@ + "'"@,
{
    let mut text = String::from_str(head);
    text.append(value);
    text.append("'");
    text
}

impl Token {
    /// The words that name this token in a message.
    pub fn to_string(&self) -> (text: String)
        ensures
            text@ == self@.text(),
    {
        match self {
            Token::String(value) => quoted("string '", value.as_str()),
            Token::Number(value) => {
                let mut text = String::from_str("number '");
                append_int(&mut text, *value);
                text.append("'");
                text
            },
            Token::SimpleType(value) => quoted("type '", value.as_str()),
            Token::Pipe => String::from_str("pipe"),
            Token::Tab => String::from_str("tab"),
            Token::Colon => String::from_str("colon"),
            Token::Equal => String::from_str("equal"),
            Token::Variable(value) => quoted("variable '", value.as_str()),
            Token::EOF => String::from_str("EOF"),
        }
    }
}

} // verus!
