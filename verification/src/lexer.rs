//! The tokens of a piece of source text.

use crate::ident::Ident;
use proc_macro2::{Spacing, TokenStream, TokenTree};
use std::str::FromStr;
use vstd::prelude::*;
use vstd::string::StringSliceAdditionalSpecFns;

verus! {

/// One token of source text. Of a literal and of a group between brackets
/// only the presence is kept.
#[derive(Debug)]
pub enum Token {
    Ident(Ident),
    /// A punctuation character; `joint` where another one follows it at once.
    Punct { ch: char, joint: bool },
    Literal,
    Group,
}

pub enum TokenView {
    Ident(Seq<char>),
    Punct { ch: char, joint: bool },
    Literal,
    Group,
}

impl Token {
    pub open spec fn view(&self) -> TokenView {
        match self {
            Token::Ident(ident) => TokenView::Ident(ident@),
            Token::Punct { ch, joint } => TokenView::Punct { ch: *ch, joint: *joint },
            Token::Literal => TokenView::Literal,
            Token::Group => TokenView::Group,
        }
    }
}

/// The views of a list of tokens.
pub open spec fn tokens_view(s: Seq<Token>) -> Seq<TokenView> {
    Seq::new(s.len(), |i: int| s[i]@)
}

/// Whether a byte is one of the opening brackets `(`, `[` and `{`.
pub open spec fn is_open_bracket(byte: u8) -> bool {
    byte == 0x28 || byte == 0x5b || byte == 0x7b
}

/// Whether a text opens no bracket, so that nothing in it is nested.
pub open spec fn bracket_free(bytes: Seq<u8>) -> bool {
    forall|i: int| 0 <= i < bytes.len() ==> !is_open_bracket(#[trigger] bytes[i])
}

/// Whether a text opens no bracket.
pub fn is_bracket_free(text: &str) -> (res: bool)
    ensures
        res == bracket_free(text.spec_bytes()),
{
    let bytes = text.as_bytes();
    let mut i: usize = 0;
    while i < bytes.len()
        invariant
            i <= bytes.len(),
            bytes@ == text.spec_bytes(),
            forall|j: int| 0 <= j < i ==> !is_open_bracket(#[trigger] bytes@[j]),
        decreases bytes.len() - i,
    {
        let byte = bytes[i];
        if byte == 0x28 || byte == 0x5b || byte == 0x7b {
            return false;
        }
        i += 1;
    }
    true
}

/// Splits a source text into tokens.
///
/// This calls `proc_macro2::TokenStream::from_str` and walks the stream
/// that it gives: the tokens of the top level, in order, or nothing where
/// the text is refused. Nothing is claimed of the tokens: which lexer reads
/// the text depends on where the program runs.
#[verifier::external_body]
pub(crate) fn lex(source: &str) -> (res: Option<Vec<Token>>) {
    let stream = TokenStream::from_str(source).ok()?;
    let token = |tree| match tree {
        TokenTree::Ident(ident) => Token::Ident(Ident { name: ident.to_string() }),
        TokenTree::Punct(punct) => Token::Punct {
            ch: punct.as_char(),
            joint: matches!(punct.spacing(), Spacing::Joint),
        },
        TokenTree::Literal(_) => Token::Literal,
        TokenTree::Group(_) => Token::Group,
    };
    Some(stream.into_iter().map(token).collect())
}

/// Whether a source text reads as one identifier that is no keyword.
///
/// This calls `syn::parse_str` for a `syn::Ident`. Nothing is claimed of
/// the answer. A text that opens a bracket is left out: `syn` goes through
/// nested brackets by calls that nest as deep.
#[verifier::external_body]
pub(crate) fn is_ident(source: &str) -> (res: bool)
    requires
        bracket_free(source.spec_bytes()),
{
    syn::parse_str::<syn::Ident>(source).is_ok()
}

/// For each token, whether it is an identifier that is no keyword.
pub(crate) fn names(tokens: &Vec<Token>) -> (res: Vec<bool>)
    ensures
        res@.len() == tokens@.len(),
        forall|i: int| 0 <= i < res@.len() && #[trigger] res@[i] ==> tokens@[i] is Ident,
{
    let mut names: Vec<bool> = Vec::new();
    let mut i: usize = 0;
    while i < tokens.len()
        invariant
            i <= tokens.len(),
            names@.len() == i,
            forall|j: int| 0 <= j < i && #[trigger] names@[j] ==> tokens@[j] is Ident,
        decreases tokens.len() - i,
    {
        let name = match &tokens[i] {
            Token::Ident(ident) => is_bracket_free(ident.as_str()) && is_ident(ident.as_str()),
            _ => false,
        };
        names.push(name);
        i += 1;
    }
    names
}

} // verus!
