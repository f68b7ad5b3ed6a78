//! The rules by which source text falls into tokens, over the bytes of the
//! text.
//!
//! At each position the first of these rules that applies decides:
//!
//! - a letter starts a keyword-like token, the longest run of letters;
//! - a digit starts a number token, the longest run of digits;
//! - `"` starts a string token, which ends with the next `"`;
//! - one of `= + - * / % > <` is an operator token, together with a `=`
//!   that follows it directly;
//! - `::` and `->` are symbol tokens;
//! - a line feed and each of `, ( ) { }` is a separator token;
//! - any other byte is passed over.
use vstd::prelude::*;
use vstd::utf8::decode_utf8;
use crate::lexer::token::{TokenType, TokenView};

verus! {

/// The line feed.
pub const LINE_FEED: u8 = 0x0a;

/// `"`
pub const QUOTE: u8 = 0x22;

/// `%`
pub const PERCENT: u8 = 0x25;

/// `(`
pub const OPEN_PAREN: u8 = 0x28;

/// `)`
pub const CLOSE_PAREN: u8 = 0x29;

/// `*`
pub const STAR: u8 = 0x2a;

/// `+`
pub const PLUS: u8 = 0x2b;

/// `,`
pub const COMMA: u8 = 0x2c;

/// `-`
pub const MINUS: u8 = 0x2d;

/// `/`
pub const SLASH: u8 = 0x2f;

/// `:`
pub const COLON: u8 = 0x3a;

/// `<`
pub const LESS: u8 = 0x3c;

/// `=`
pub const EQUALS: u8 = 0x3d;

/// `>`
pub const GREATER: u8 = 0x3e;

/// `{`
pub const OPEN_BRACE: u8 = 0x7b;

/// `}`
pub const CLOSE_BRACE: u8 = 0x7d;

/// `A` to `Z` and `a` to `z`.
pub open spec fn is_letter(byte: u8) -> bool {
    (0x41 <= byte <= 0x5a) || (0x61 <= byte <= 0x7a)
}

/// `0` to `9`.
pub open spec fn is_digit(byte: u8) -> bool {
    0x30 <= byte <= 0x39
}

/// One of `= + - * / % > <`.
pub open spec fn is_operator(byte: u8) -> bool {
    byte == EQUALS || byte == PLUS || byte == MINUS || byte == STAR || byte == SLASH || byte
        == PERCENT || byte == GREATER || byte == LESS
}

/// A line feed or one of `, ( ) { }`.
pub open spec fn is_separator(byte: u8) -> bool {
    byte == LINE_FEED || byte == COMMA || byte == OPEN_PAREN || byte == CLOSE_PAREN || byte
        == OPEN_BRACE || byte == CLOSE_BRACE
}

/// Whether `::` or `->` stands at `pos`.
pub open spec fn is_symbol(src: Seq<u8>, pos: int) -> bool {
    &&& 0 <= pos
    &&& pos + 1 < src.len()
    &&& (src[pos] == COLON && src[pos + 1] == COLON) || (src[pos] == MINUS && src[pos + 1]
        == GREATER)
}

/// Whether a byte carries on a run of the given class: letters carry on a
/// keyword-like token, digits a number.
pub open spec fn in_run(token_type: TokenType, byte: u8) -> bool {
    match token_type {
        TokenType::Keyword => is_letter(byte),
        TokenType::Number => is_digit(byte),
        _ => false,
    }
}

/// The index of the last byte of the longest run of the given class that holds
/// the byte at `pos`.
pub open spec fn run_end(src: Seq<u8>, pos: int, token_type: TokenType) -> int
    decreases src.len() - pos,
{
    if 0 <= pos && pos + 1 < src.len() && in_run(token_type, src[pos + 1]) {
        run_end(src, pos + 1, token_type)
    } else {
        pos
    }
}

/// The index of the first `"` at or after `from`, if there is one.
pub open spec fn closing_quote(src: Seq<u8>, from: int) -> Option<int>
    decreases src.len() - from,
{
    if from < 0 || from >= src.len() {
        None
    } else if src[from] == QUOTE {
        Some(from)
    } else {
        closing_quote(src, from + 1)
    }
}

/// What the rules make of one position of the text.
pub enum Scan {
    /// A token of this class starts here; `end` is the index of its last byte.
    Token { token_type: TokenType, end: int },
    /// No token starts here.
    Skip,
    /// A string starts here and the text ends before the string does.
    Unterminated,
}

/// What the rules make of position `pos`.
pub open spec fn scan(src: Seq<u8>, pos: int) -> Scan
    recommends
        0 <= pos < src.len(),
{
    let byte = src[pos];
    if is_letter(byte) {
        Scan::Token { token_type: TokenType::Keyword, end: run_end(src, pos, TokenType::Keyword) }
    } else if is_digit(byte) {
        Scan::Token { token_type: TokenType::Number, end: run_end(src, pos, TokenType::Number) }
    } else if byte == QUOTE {
        match closing_quote(src, pos + 1) {
            Some(end) => Scan::Token { token_type: TokenType::String, end },
            None => Scan::Unterminated,
        }
    } else if is_operator(byte) {
        Scan::Token {
            token_type: TokenType::Operator,
            end: if pos + 1 < src.len() && src[pos + 1] == EQUALS {
                pos + 1
            } else {
                pos
            },
        }
    } else if is_symbol(src, pos) {
        Scan::Token { token_type: TokenType::Symbol, end: pos + 1 }
    } else if is_separator(byte) {
        Scan::Token { token_type: TokenType::Separator, end: pos }
    } else {
        Scan::Skip
    }
}

/// The token of the given class that spans the bytes from `start` to `end`,
/// both included.
pub open spec fn token_of(src: Seq<u8>, token_type: TokenType, start: int, end: int) -> TokenView {
    TokenView {
        token_type,
        content: decode_utf8(src.subrange(start, end + 1)),
        start: start as nat,
        end: end as nat,
    }
}

/// The tokens of the text from `pos` on, or `None` where a string is left
/// open.
pub open spec fn tokens_from(src: Seq<u8>, pos: int) -> Option<Seq<TokenView>>
    decreases src.len() - pos,
    via tokens_from_decreases
{
    if pos < 0 || pos >= src.len() {
        Some(seq![])
    } else {
        match scan(src, pos) {
            Scan::Skip => tokens_from(src, pos + 1),
            Scan::Unterminated => None,
            Scan::Token { token_type, end } => match tokens_from(src, end + 1) {
                Some(rest) => Some(seq![token_of(src, token_type, pos, end)] + rest),
                None => None,
            },
        }
    }
}

#[via_fn]
proof fn tokens_from_decreases(src: Seq<u8>, pos: int) {
    if 0 <= pos < src.len() {
        lemma_scan_bounds(src, pos);
    }
}

/// The index of the last byte of the text, or 0 where the text is empty.
pub open spec fn last_index(src: Seq<u8>) -> int {
    if src.len() == 0 {
        0
    } else {
        src.len() - 1
    }
}

/// The tokens of a whole text, or `None` where a string is left open.
pub open spec fn tokenize(src: Seq<u8>) -> Option<Seq<TokenView>> {
    tokens_from(src, 0)
}

/// A run is the longest one: it stays in the text, every byte behind its first
/// is of the class, and the byte behind it, if there is one, is not.
pub proof fn lemma_run_end(src: Seq<u8>, pos: int, token_type: TokenType)
    requires
        0 <= pos < src.len(),
    ensures
        pos <= run_end(src, pos, token_type) < src.len(),
        forall|i: int|
            pos < i <= run_end(src, pos, token_type) ==> in_run(token_type, #[trigger] src[i]),
        run_end(src, pos, token_type) + 1 < src.len() ==> !in_run(
            token_type,
            src[run_end(src, pos, token_type) + 1],
        ),
    decreases src.len() - pos,
{
    if pos + 1 < src.len() && in_run(token_type, src[pos + 1]) {
        lemma_run_end(src, pos + 1, token_type);
    }
}

/// The closing quote is the first `"` from `from` on; without one, no `"`
/// stands there at all.
pub proof fn lemma_closing_quote(src: Seq<u8>, from: int)
    requires
        0 <= from,
    ensures
        match closing_quote(src, from) {
            Some(end) => {
                &&& from <= end < src.len()
                &&& src[end] == QUOTE
                &&& forall|i: int| from <= i < end ==> #[trigger] src[i] != QUOTE
            },
            None => forall|i: int| from <= i < src.len() ==> #[trigger] src[i] != QUOTE,
        },
    decreases src.len() - from,
{
    if from < src.len() && src[from] != QUOTE {
        lemma_closing_quote(src, from + 1);
    }
}

/// A token lies within the text, does not end before it starts, and both its
/// first and its last byte are ASCII.
pub proof fn lemma_scan_bounds(src: Seq<u8>, pos: int)
    requires
        0 <= pos < src.len(),
    ensures
        scan(src, pos) matches Scan::Token { token_type, end } ==> {
            &&& pos <= end < src.len()
            &&& src[pos] < 0x80
            &&& src[end] < 0x80
        },
{
    lemma_run_end(src, pos, TokenType::Keyword);
    lemma_run_end(src, pos, TokenType::Number);
    lemma_closing_quote(src, pos + 1);
}

} // verus!
