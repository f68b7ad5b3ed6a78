//! The grammar, as functions from a token sequence and a cursor to what the
//! parser makes of them.
//!
//! ```text
//! FunctionDecl     := "fcn" NAME "(" (Arg ("," Arg)*)? ")" "->" TYPE Block
//! Arg              := NAME "::" TYPE
//! Block            := "{" Node* "}"
//! Node             := VariableDecl | FunctionCall | Block | ControlStatement
//! VariableDecl     := "var" NAME "::" TYPE "=" Expr
//! FunctionCall     := NAME "(" (Expr ("," Expr)*)? ")"
//! ControlStatement := ("return" Expr) | "break" | "continue"
//! Expr             := Literal | FunctionCall | VarRef
//! Literal          := "True" | "False" | NUMBER | STRING
//! VarRef           := NAME
//! ```
//!
//! The cursor is the index of a token. A production that matches leaves the
//! cursor on the last token of what it matched, not behind it: the cursor
//! never leaves the sequence. `advance` counts how far a production moved the
//! cursor, so a production that gives the cursor back has `advance == 0`.
//!
//! The productions that call one another in a circle are opaque, so that a
//! proof unfolds only those that it names in a `reveal`.
use vstd::prelude::*;
use crate::lexer::token::{TokenType, TokenView};
use crate::parser::errors::{DeclarationKind, ParseErrorView, ValueKind};
use crate::parser::statements::Statement;
use crate::parser::tree::{FunctionArgView, NodeView};
use crate::parser::types::Type;
use crate::text::decimal_literal;

verus! {

/// What one production makes of the tokens at the cursor.
pub struct Parsed {
    /// The node, or `None` where the production does not match.
    pub node: Option<NodeView>,
    /// How many tokens the cursor moved forward.
    pub advance: nat,
    /// What was reported on the way, in order.
    pub errors: Seq<ParseErrorView>,
}

/// What a production that repeats makes of the tokens at the cursor.
pub struct ParsedList<T> {
    /// What was gathered, in order.
    pub items: Seq<T>,
    /// Whether the list came to its closing token.
    pub complete: bool,
    /// How many tokens the cursor moved forward.
    pub advance: nat,
    /// What was reported on the way, in order.
    pub errors: Seq<ParseErrorView>,
}

impl Parsed {
    /// No match, nothing consumed, nothing reported.
    pub open spec fn nothing() -> Parsed {
        Parsed { node: None, advance: 0, errors: seq![] }
    }

    /// No match and nothing consumed, after these reports.
    pub open spec fn rejected(errors: Seq<ParseErrorView>) -> Parsed {
        Parsed { node: None, advance: 0, errors }
    }

    /// No match, with the cursor left `advance` tokens on, after these reports.
    pub open spec fn aborted(advance: nat, errors: Seq<ParseErrorView>) -> Parsed {
        Parsed { node: None, advance, errors }
    }

    /// The same outcome, reached after the cursor had already moved `skipped`
    /// tokens and `earlier` had already been reported.
    pub open spec fn after(self, skipped: nat, earlier: Seq<ParseErrorView>) -> Parsed {
        Parsed {
            node: self.node,
            advance: skipped + self.advance,
            errors: earlier + self.errors,
        }
    }
}

/// Whether a token stands at `pos` and has this text.
pub open spec fn holds_text(tokens: Seq<TokenView>, pos: nat, text: Seq<char>) -> bool {
    pos < tokens.len() && tokens[pos as int].content == text
}

/// Whether a token stands at `pos` and has this class.
pub open spec fn holds_type(tokens: Seq<TokenView>, pos: nat, token_type: TokenType) -> bool {
    pos < tokens.len() && tokens[pos as int].token_type == token_type
}

/// The text of the token at `pos`.
pub open spec fn text_at(tokens: Seq<TokenView>, pos: nat) -> Seq<char>
    recommends
        pos < tokens.len(),
{
    tokens[pos as int].content
}

/// Where the cursor stands after an advance from `pos`: one token on, or at
/// `pos` still where no further token exists.
pub open spec fn next_pos(tokens: Seq<TokenView>, pos: nat) -> nat {
    if pos + 1 < tokens.len() {
        pos + 1
    } else {
        pos
    }
}

/// The words that the language keeps for itself.
pub open spec fn is_reserved_word(text: Seq<char>) -> bool {
    text == "var"@ || text == "if"@ || text == "else"@ || text == "return"@
}

/// A text that cannot be a name: the spelling of a primitive type, or a
/// reserved word.
pub open spec fn is_forbidden_name(text: Seq<char>) -> bool {
    Type::named(text) is Some || is_reserved_word(text)
}

/// NAME: a keyword-like token whose text is not forbidden.
pub open spec fn holds_name(tokens: Seq<TokenView>, pos: nat) -> bool {
    holds_type(tokens, pos, TokenType::Keyword) && !is_forbidden_name(text_at(tokens, pos))
}

/// Literal := "True" | "False" | NUMBER | STRING
///
/// A number too large for the machine word is no literal. The cursor stays on
/// the token.
pub open spec fn literal(tokens: Seq<TokenView>, pos: nat) -> Option<NodeView> {
    if pos >= tokens.len() {
        None
    } else {
        let token = tokens[pos as int];
        match token.token_type {
            TokenType::Keyword => {
                if token.content == "True"@ {
                    Some(NodeView::Bool { value: true })
                } else if token.content == "False"@ {
                    Some(NodeView::Bool { value: false })
                } else {
                    None
                }
            },
            TokenType::Number => {
                match decimal_literal(token.content) {
                    Some(int_value) => Some(NodeView::Number { int_value }),
                    None => None,
                }
            },
            TokenType::String => Some(NodeView::String { value: token.content }),
            _ => None,
        }
    }
}

/// VarRef := NAME
///
/// The cursor stays on the token.
pub open spec fn variable_ref(tokens: Seq<TokenView>, pos: nat) -> Option<NodeView> {
    if holds_name(tokens, pos) {
        Some(NodeView::VariableCall { name: text_at(tokens, pos) })
    } else {
        None
    }
}

/// Expr := Literal | FunctionCall | VarRef
///
/// The first alternative that matches wins.
#[verifier::opaque]
pub open spec fn expr(tokens: Seq<TokenView>, pos: nat) -> Parsed
    decreases tokens.len() - pos, 1nat,
{
    match literal(tokens, pos) {
        Some(node) => Parsed { node: Some(node), advance: 0, errors: seq![] },
        None => {
            let call = func_call(tokens, pos);
            if call.node is Some {
                call
            } else {
                Parsed { node: variable_ref(tokens, pos), advance: 0, errors: call.errors }
            }
        },
    }
}

/// FunctionCall := NAME "(" (Expr ("," Expr)*)? ")"
///
/// Without a name and `(` it does not match. Without a `)` before the tokens
/// end it does not match either, and gives the cursor back; what was reported
/// of its arguments stays reported.
#[verifier::opaque]
pub open spec fn func_call(tokens: Seq<TokenView>, pos: nat) -> Parsed
    decreases tokens.len() - pos, 0nat,
{
    if !holds_name(tokens, pos) {
        Parsed::nothing()
    } else {
        let open = next_pos(tokens, pos);
        if !holds_text(tokens, open, "("@) || open + 1 >= tokens.len() {
            Parsed::nothing()
        } else {
            let args = call_args(tokens, open + 1);
            if args.complete {
                Parsed {
                    node: Some(
                        NodeView::FunctionCall { name: text_at(tokens, pos), args: args.items },
                    ),
                    advance: (open + 1 - pos) as nat + args.advance,
                    errors: args.errors,
                }
            } else {
                Parsed::rejected(args.errors)
            }
        }
    }
}

/// The arguments of a call, from the first token behind `(` up to `)`.
///
/// A token at which no expression starts is reported and passed over. A comma
/// behind an argument is passed over; none is asked for.
#[verifier::opaque]
pub open spec fn call_args(tokens: Seq<TokenView>, pos: nat) -> ParsedList<NodeView>
    decreases tokens.len() - pos, 2nat,
{
    if holds_text(tokens, pos, ")"@) {
        ParsedList { items: seq![], complete: true, advance: 0, errors: seq![] }
    } else {
        let arg = expr(tokens, pos);
        let here = pos + arg.advance;
        let items = match arg.node {
            Some(node) => seq![node],
            None => seq![],
        };
        let errors = match arg.node {
            Some(_) => arg.errors,
            None => arg.errors.push(
                ParseErrorView::InvalidValue {
                    reason: ValueKind::Parameter,
                    found: text_at(tokens, pos),
                },
            ),
        };
        if here + 1 >= tokens.len() {
            ParsedList { items, complete: false, advance: arg.advance, errors }
        } else {
            let next = if holds_text(tokens, here + 1, ","@) {
                next_pos(tokens, here + 1)
            } else {
                here + 1
            };
            let rest = call_args(tokens, next);
            ParsedList {
                items: items + rest.items,
                complete: rest.complete,
                advance: (next - pos) as nat + rest.advance,
                errors: errors + rest.errors,
            }
        }
    }
}

/// VariableDecl := "var" NAME "::" TYPE "=" Expr
///
/// Behind `var`, whatever is missing is reported, and the cursor is given back.
pub open spec fn var_decl(tokens: Seq<TokenView>, pos: nat) -> Parsed {
    let name = next_pos(tokens, pos);
    let colons = next_pos(tokens, name);
    let ty = next_pos(tokens, colons);
    let assign = next_pos(tokens, ty);
    let value = next_pos(tokens, assign);
    if !holds_text(tokens, pos, "var"@) {
        Parsed::nothing()
    } else if !holds_name(tokens, name) {
        Parsed::rejected(seq![ParseErrorView::InvalidName { reason: DeclarationKind::Variable }])
    } else if !holds_text(tokens, colons, "::"@) {
        Parsed::rejected(
            seq![
                ParseErrorView::MissingToken { expected: "::"@, found: text_at(tokens, colons) },
            ],
        )
    } else if !holds_type(tokens, ty, TokenType::Keyword) || Type::named(text_at(tokens, ty))
        is None {
        Parsed::rejected(seq![ParseErrorView::UnresolvedType { reason: DeclarationKind::Variable }])
    } else if !holds_text(tokens, assign, "="@) {
        Parsed::rejected(
            seq![ParseErrorView::MissingToken { expected: "="@, found: text_at(tokens, assign) }],
        )
    } else {
        let init = expr(tokens, value);
        match init.node {
            Some(node) => Parsed {
                node: Some(
                    NodeView::Variable {
                        var_type: Type::named(text_at(tokens, ty))->0,
                        name: text_at(tokens, name),
                        value: Box::new(node),
                    },
                ),
                advance: (value - pos) as nat + init.advance,
                errors: init.errors,
            },
            None => Parsed::rejected(
                init.errors.push(
                    ParseErrorView::InvalidValue {
                        reason: ValueKind::Variable,
                        found: text_at(tokens, value),
                    },
                ),
            ),
        }
    }
}

/// ControlStatement := ("return" Expr) | "break" | "continue"
///
/// A `return` without a value is reported and still matches, with no value.
pub open spec fn statement(tokens: Seq<TokenView>, pos: nat) -> Parsed {
    if !holds_type(tokens, pos, TokenType::Keyword) {
        Parsed::nothing()
    } else {
        match Statement::named(text_at(tokens, pos)) {
            None => Parsed::nothing(),
            Some(Statement::Return) => {
                let start = next_pos(tokens, pos);
                let value = expr(tokens, start);
                Parsed {
                    node: Some(
                        NodeView::Statement {
                            stat_type: Statement::Return,
                            value: match value.node {
                                Some(node) => Some(Box::new(node)),
                                None => None,
                            },
                        },
                    ),
                    advance: (start - pos) as nat + value.advance,
                    errors: match value.node {
                        Some(_) => value.errors,
                        None => value.errors.push(
                            ParseErrorView::InvalidValue {
                                reason: ValueKind::Return,
                                found: text_at(tokens, start),
                            },
                        ),
                    },
                }
            },
            Some(stat_type) => Parsed {
                node: Some(NodeView::Statement { stat_type, value: None }),
                advance: 0,
                errors: seq![],
            },
        }
    }
}

/// Block := "{" Node* "}"
///
/// A block matches from its `{` alone: where the tokens end before `}`, that
/// is reported, and where no node starts, the block ends there.
#[verifier::opaque]
pub open spec fn block(tokens: Seq<TokenView>, pos: nat) -> Parsed
    decreases tokens.len() - pos, 2nat,
{
    if !holds_text(tokens, pos, "{"@) {
        Parsed::nothing()
    } else if pos + 1 >= tokens.len() {
        Parsed {
            node: Some(NodeView::Block { nodes: seq![] }),
            advance: 0,
            errors: seq![ParseErrorView::MissingBlockEnd],
        }
    } else {
        let body = block_nodes(tokens, pos + 1);
        Parsed {
            node: Some(NodeView::Block { nodes: body.items }),
            advance: 1 + body.advance,
            errors: body.errors,
        }
    }
}

/// The nodes of a block, from the first token behind `{` up to `}`.
#[verifier::opaque]
pub open spec fn block_nodes(tokens: Seq<TokenView>, pos: nat) -> ParsedList<NodeView>
    decreases tokens.len() - pos, 4nat,
{
    if holds_text(tokens, pos, "}"@) {
        ParsedList { items: seq![], complete: true, advance: 0, errors: seq![] }
    } else {
        let first = node(tokens, pos);
        let here = pos + first.advance;
        match first.node {
            None => ParsedList {
                items: seq![],
                complete: false,
                advance: first.advance,
                errors: first.errors,
            },
            Some(item) => {
                if here + 1 >= tokens.len() {
                    ParsedList {
                        items: seq![item],
                        complete: false,
                        advance: first.advance,
                        errors: first.errors.push(ParseErrorView::MissingBlockEnd),
                    }
                } else {
                    let rest = block_nodes(tokens, here + 1);
                    ParsedList {
                        items: seq![item] + rest.items,
                        complete: rest.complete,
                        advance: first.advance + 1 + rest.advance,
                        errors: first.errors + rest.errors,
                    }
                }
            },
        }
    }
}

/// Node := VariableDecl | FunctionCall | Block | ControlStatement
///
/// Line breaks before the node are passed over. The first alternative that
/// matches wins; what the ones before it reported stays reported.
#[verifier::opaque]
pub open spec fn node(tokens: Seq<TokenView>, pos: nat) -> Parsed
    decreases tokens.len() - pos, 3nat,
{
    if holds_text(tokens, pos, "\n"@) {
        if pos + 1 < tokens.len() {
            node(tokens, pos + 1).after(1, seq![])
        } else {
            Parsed::rejected(seq![ParseErrorView::UnexpectedEnd])
        }
    } else {
        let decl = var_decl(tokens, pos);
        if decl.node is Some {
            decl
        } else {
            let call = func_call(tokens, pos);
            if call.node is Some {
                call.after(0, decl.errors)
            } else {
                let inner = block(tokens, pos);
                if inner.node is Some {
                    inner.after(0, decl.errors + call.errors)
                } else {
                    statement(tokens, pos).after(0, decl.errors + call.errors)
                }
            }
        }
    }
}

/// The arguments of a function declaration, from the first token behind `(`
/// up to `)`.
///
/// Arg := NAME "::" TYPE
///
/// The first argument that is not one ends the list, incomplete, with the
/// cursor where it went wrong. A comma behind an argument is passed over;
/// none is asked for.
pub open spec fn decl_args(tokens: Seq<TokenView>, pos: nat) -> ParsedList<FunctionArgView>
    decreases tokens.len() - pos,
{
    let colons = next_pos(tokens, pos);
    let ty = next_pos(tokens, colons);
    if holds_text(tokens, pos, ")"@) {
        ParsedList { items: seq![], complete: true, advance: 0, errors: seq![] }
    } else if !holds_name(tokens, pos) {
        ParsedList {
            items: seq![],
            complete: false,
            advance: 0,
            errors: seq![ParseErrorView::InvalidName { reason: DeclarationKind::Argument }],
        }
    } else if !holds_text(tokens, colons, "::"@) {
        ParsedList {
            items: seq![],
            complete: false,
            advance: (colons - pos) as nat,
            errors: seq![
                ParseErrorView::MissingToken { expected: "::"@, found: text_at(tokens, colons) },
            ],
        }
    } else if Type::named(text_at(tokens, ty)) is None {
        ParsedList {
            items: seq![],
            complete: false,
            advance: (ty - pos) as nat,
            errors: seq![ParseErrorView::UnresolvedType { reason: DeclarationKind::Argument }],
        }
    } else {
        let arg = FunctionArgView {
            var_type: Type::named(text_at(tokens, ty))->0,
            name: text_at(tokens, pos),
        };
        if ty + 1 >= tokens.len() {
            ParsedList {
                items: seq![arg],
                complete: false,
                advance: (ty - pos) as nat,
                errors: seq![
                    ParseErrorView::MissingToken { expected: ")"@, found: text_at(tokens, ty) },
                ],
            }
        } else {
            let next = if holds_text(tokens, ty + 1, ","@) {
                next_pos(tokens, ty + 1)
            } else {
                ty + 1
            };
            let rest = decl_args(tokens, next);
            ParsedList {
                items: seq![arg] + rest.items,
                complete: rest.complete,
                advance: (next - pos) as nat + rest.advance,
                errors: rest.errors,
            }
        }
    }
}

/// FunctionDecl := "fcn" NAME "(" (Arg ("," Arg)*)? ")" "->" TYPE Block
///
/// This is where a parse starts, so nothing is given back: where the
/// declaration goes wrong the parse ends, with the cursor where it went wrong.
pub open spec fn func_decl(tokens: Seq<TokenView>, pos: nat) -> Parsed {
    let name = next_pos(tokens, pos);
    let open = next_pos(tokens, name);
    let first = next_pos(tokens, open);
    let args = decl_args(tokens, first);
    let close = first + args.advance;
    let arrow = next_pos(tokens, close);
    let ty = next_pos(tokens, arrow);
    let start = next_pos(tokens, ty);
    let body = block(tokens, start);
    if !holds_text(tokens, pos, "fcn"@) {
        Parsed::nothing()
    } else if !holds_name(tokens, name) {
        Parsed::aborted((name - pos) as nat, seq![])
    } else if !holds_text(tokens, open, "("@) {
        Parsed::aborted(
            (open - pos) as nat,
            seq![ParseErrorView::MissingToken { expected: "("@, found: text_at(tokens, open) }],
        )
    } else if !args.complete {
        Parsed::aborted((close - pos) as nat, args.errors)
    } else if !holds_text(tokens, arrow, "->"@) {
        Parsed::aborted(
            (arrow - pos) as nat,
            args.errors.push(
                ParseErrorView::MissingToken { expected: "->"@, found: text_at(tokens, arrow) },
            ),
        )
    } else if Type::named(text_at(tokens, ty)) is None {
        Parsed::aborted((ty - pos) as nat, args.errors.push(ParseErrorView::UnresolvedReturnType))
    } else {
        match body.node {
            None => Parsed::aborted(
                (start - pos) as nat,
                (args.errors + body.errors).push(ParseErrorView::MissingBlock),
            ),
            Some(block) => Parsed {
                node: Some(
                    NodeView::Function {
                        name: text_at(tokens, name),
                        args: args.items,
                        return_type: Type::named(text_at(tokens, ty))->0,
                        block: Box::new(block),
                    },
                ),
                advance: (start - pos) as nat + body.advance,
                errors: args.errors + body.errors,
            },
        }
    }
}

} // verus!
