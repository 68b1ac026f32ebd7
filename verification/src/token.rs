//! Tokens: a kind and the text the token was read from.

use vstd::prelude::*;

verus! {

/// The kind of a token.
#[derive(Clone, Copy, Debug, PartialEq, Eq, Structural)]
pub enum TokenType {
    /// The keyword `let`.
    Let,
    /// An alphabetic run that is no keyword.
    Identifier,
    /// The assignment operator `=`.
    Assign,
    /// A quoted string; the token's text is what stood between the quotes.
    StringLiteral,
    /// A run of decimal digits.
    NumberLiteral,
    /// `true` or `false`.
    BooleanLiteral,
    /// The keyword `print`.
    PrintCall,
    /// The block-open `{`.
    ScopeDrop,
    /// The block-close `}`.
    ScopeJump,
    /// The group-open `(`.
    ExpressionStart,
    /// The group-close `)`.
    ExpressionClose,
    /// The keyword `if`.
    Conditional,
    /// The keyword `else`.
    ConditionalElse,
    /// The keyword `goto`.
    Goto,
}

/// A token as contracts see it: its kind and its text as a sequence of
/// characters.
pub struct TokenView {
    pub kind: TokenType,
    pub text: Seq<char>,
}

/// A classified lexical unit. Tokens are made once and never changed.
#[derive(Debug, PartialEq, Eq)]
pub struct Token {
    pub token_type: TokenType,
    pub literal: String,
}

impl View for Token {
    type V = TokenView;

    open spec fn view(&self) -> TokenView {
        TokenView { kind: self.token_type, text: self.literal@ }
    }
}

impl Token {
    /// A token of kind `token` whose text is `literal`.
    pub fn create(token: TokenType, literal: String) -> (t: Token)
        ensures
            t@ == (TokenView { kind: token, text: literal@ }),
            t.token_type == token,
            t.literal == literal,
    {
        Token { token_type: token, literal }
    }

    /// A second token with the same kind and the same text.
    pub fn duplicate(&self) -> (t: Token)
        ensures
            t@ == self@,
    {
        Token { token_type: self.token_type, literal: self.literal.clone() }
    }
}

/// The views of a sequence of tokens, one for one.
pub open spec fn token_views(tokens: Seq<Token>) -> Seq<TokenView> {
    Seq::new(tokens.len(), |i: int| tokens[i]@)
}

} // verus!
