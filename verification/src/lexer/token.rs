use vstd::prelude::*;

verus! {

/// The class that the tokenizer gives a token.
///
/// `Keyword` covers every run of letters: identifiers, reserved words and type
/// names alike. The parser tells them apart.
#[derive(Debug, Clone, Copy, PartialEq, Eq, Structural)]
pub enum TokenType {
    Keyword,
    Number,
    String,
    Operator,
    Symbol,
    Separator,
}

/// The byte offsets of a token's first and last byte in the source text.
#[derive(Debug, Clone, Copy, PartialEq, Eq, Structural)]
pub struct TokenPosition {
    pub start: usize,
    pub end: usize,
}

/// A classified piece of the source text.
#[derive(Debug, Clone, PartialEq, Eq)]
pub struct Token {
    pub token_type: TokenType,
    pub content: String,
    pub position: TokenPosition,
}

/// A token as the contracts see it.
pub struct TokenView {
    pub token_type: TokenType,
    pub content: Seq<char>,
    pub start: nat,
    pub end: nat,
}

impl View for Token {
    type V = TokenView;

    open spec fn view(&self) -> TokenView {
        TokenView {
            token_type: self.token_type,
            content: self.content@,
            start: self.position.start as nat,
            end: self.position.end as nat,
        }
    }
}

/// The views of a run of tokens, in order.
pub open spec fn tokens_view(tokens: Seq<Token>) -> Seq<TokenView> {
    Seq::new(tokens.len(), |i: int| tokens[i]@)
}

} // verus!
