use vstd::prelude::*;
use crate::lexer::token::Token;
use crate::text::str_eq;

verus! {

/// The primitive types of the language.
#[derive(Debug, Clone, Copy, PartialEq, Eq, Structural)]
pub enum Type {
    Int8,
    Int16,
    Int32,
    Int64,
    Float32,
    Float64,
    Bool,
    Char,
    String,
}

impl Type {
    /// How the type is written in source text.
    pub open spec fn spelling(self) -> Seq<char> {
        match self {
            Type::Int8 => "Int8"@,
            Type::Int16 => "Int16"@,
            Type::Int32 => "Int32"@,
            Type::Int64 => "Int64"@,
            Type::Float32 => "Float32"@,
            Type::Float64 => "Float64"@,
            Type::Bool => "Bool"@,
            Type::Char => "Char"@,
            Type::String => "String"@,
        }
    }

    /// The type that a text names, if it names one.
    pub open spec fn named(text: Seq<char>) -> Option<Type> {
        if text == "Int8"@ {
            Some(Type::Int8)
        } else if text == "Int16"@ {
            Some(Type::Int16)
        } else if text == "Int32"@ {
            Some(Type::Int32)
        } else if text == "Int64"@ {
            Some(Type::Int64)
        } else if text == "Float32"@ {
            Some(Type::Float32)
        } else if text == "Float64"@ {
            Some(Type::Float64)
        } else if text == "Bool"@ {
            Some(Type::Bool)
        } else if text == "Char"@ {
            Some(Type::Char)
        } else if text == "String"@ {
            Some(Type::String)
        } else {
            None
        }
    }

    /// Looks the token's text up among the type names.
    pub fn from_token(token: &Token) -> (found: Option<Self>)
        ensures
            found == Type::named(token@.content),
    {
        let text = token.content.as_str();
        if str_eq(text, "Int8") {
            Some(Type::Int8)
        } else if str_eq(text, "Int16") {
            Some(Type::Int16)
        } else if str_eq(text, "Int32") {
            Some(Type::Int32)
        } else if str_eq(text, "Int64") {
            Some(Type::Int64)
        } else if str_eq(text, "Float32") {
            Some(Type::Float32)
        } else if str_eq(text, "Float64") {
            Some(Type::Float64)
        } else if str_eq(text, "Bool") {
            Some(Type::Bool)
        } else if str_eq(text, "Char") {
            Some(Type::Char)
        } else if str_eq(text, "String") {
            Some(Type::String)
        } else {
            None
        }
    }
}

/// A text names a type exactly when it is that type's spelling: the lookup is
/// by exact spelling, and no two types are spelled alike.
pub proof fn lemma_named_iff_spelling(text: Seq<char>, t: Type)
    ensures
        Type::named(text) == Some(t) <==> text == t.spelling(),
{
    reveal_strlit("Int8");
    reveal_strlit("Int16");
    reveal_strlit("Int32");
    reveal_strlit("Int64");
    reveal_strlit("Float32");
    reveal_strlit("Float64");
    reveal_strlit("Bool");
    reveal_strlit("Char");
    reveal_strlit("String");
    if text == t.spelling() {
        assert(text.len() == t.spelling().len());
        assert(text[3] == t.spelling()[3]);
        assert(text[4] == t.spelling()[4]);
        assert(text[0] == t.spelling()[0]);
        assert(text[5] == t.spelling()[5]);
        assert(text[6] == t.spelling()[6]);
    }
}

} // verus!
