use vstd::prelude::*;
use crate::lexer::token::Token;
use crate::text::str_eq;

verus! {

/// The kinds of control statement.
#[derive(Debug, Clone, Copy, PartialEq, Eq, Structural)]
pub enum Statement {
    Return,
    Break,
    Continue,
}

impl Statement {
    /// How the statement is written in source text.
    pub open spec fn spelling(self) -> Seq<char> {
        match self {
            Statement::Return => "return"@,
            Statement::Break => "break"@,
            Statement::Continue => "continue"@,
        }
    }

    /// The statement that a text names, if it names one.
    pub open spec fn named(text: Seq<char>) -> Option<Statement> {
        if text == "return"@ {
            Some(Statement::Return)
        } else if text == "break"@ {
            Some(Statement::Break)
        } else if text == "continue"@ {
            Some(Statement::Continue)
        } else {
            None
        }
    }

    /// Looks the token's text up among the statement words.
    pub fn from_token(token: &Token) -> (found: Option<Self>)
        ensures
            found == Statement::named(token@.content),
    {
        let text = token.content.as_str();
        if str_eq(text, "return") {
            Some(Statement::Return)
        } else if str_eq(text, "break") {
            Some(Statement::Break)
        } else if str_eq(text, "continue") {
            Some(Statement::Continue)
        } else {
            None
        }
    }
}

/// A text names a statement exactly when it is that statement's spelling.
pub proof fn lemma_named_iff_spelling(text: Seq<char>, s: Statement)
    ensures
        Statement::named(text) == Some(s) <==> text == s.spelling(),
{
    reveal_strlit("return");
    reveal_strlit("break");
    reveal_strlit("continue");
    if text == s.spelling() {
        assert(text.len() == s.spelling().len());
        assert(text[0] == s.spelling()[0]);
    }
}

} // verus!
