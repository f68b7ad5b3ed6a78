//! What holds of the tokens whatever the text is.
use vstd::prelude::*;
use vstd::utf8::*;
use crate::lexer::rules::{
    in_run, is_digit, is_letter, is_operator, is_separator, lemma_closing_quote, lemma_run_end,
    lemma_scan_bounds, scan, token_of, tokens_from, Scan, COLON, EQUALS, LINE_FEED, MINUS, QUOTE,
};
use crate::lexer::token::{TokenType, TokenView};
use crate::text::{is_decimal, lemma_ascii_byte_boundaries, lemma_decode_ascii};

verus! {

/// Whether the tokens lie in the text one behind the other, from `pos` on,
/// each with the text that its span holds.
pub open spec fn spans_in_order(src: Seq<u8>, tokens: Seq<TokenView>, pos: int) -> bool {
    &&& forall|i: int|
        0 <= i < tokens.len() ==> {
            &&& pos <= (#[trigger] tokens[i]).start <= tokens[i].end < src.len()
            &&& encode_utf8(tokens[i].content) == src.subrange(
                tokens[i].start as int,
                tokens[i].end as int + 1,
            )
        }
    &&& forall|i: int, j: int|
        0 <= i < j < tokens.len() ==> (#[trigger] tokens[i]).end < (#[trigger] tokens[j]).start
}

/// Every token holds exactly the text between its first and its last byte,
/// and the tokens follow one another without overlap, in the order of the
/// text.
pub proof fn lemma_tokens_span_the_text(src: Seq<u8>, pos: int)
    requires
        valid_utf8(src),
        0 <= pos,
    ensures
        tokens_from(src, pos) matches Some(tokens) ==> spans_in_order(src, tokens, pos),
    decreases src.len() - pos,
{
    if pos < src.len() {
        lemma_scan_bounds(src, pos);
        match scan(src, pos) {
            Scan::Skip => {
                lemma_tokens_span_the_text(src, pos + 1);
            },
            Scan::Unterminated => {},
            Scan::Token { token_type, end } => {
                lemma_tokens_span_the_text(src, end + 1);
                if let Some(rest) = tokens_from(src, end + 1) {
                    let first = token_of(src, token_type, pos, end);
                    let tokens = seq![first] + rest;
                    lemma_ascii_byte_boundaries(src, pos);
                    lemma_ascii_byte_boundaries(src, end);
                    let front = src.subrange(0, end + 1);
                    valid_utf8_split(src, end + 1);
                    is_char_boundary_iff_not_is_continuation_byte(src, pos);
                    is_char_boundary_iff_not_is_continuation_byte(front, pos);
                    valid_utf8_split(front, pos);
                    assert(front.subrange(pos, front.len() as int) =~= src.subrange(pos, end + 1));
                    decode_utf8_encode_utf8(src.subrange(pos, end + 1));
                    assert forall|i: int| 0 <= i < tokens.len() implies {
                        &&& pos <= (#[trigger] tokens[i]).start <= tokens[i].end < src.len()
                        &&& encode_utf8(tokens[i].content) == src.subrange(
                            tokens[i].start as int,
                            tokens[i].end as int + 1,
                        )
                    } by {
                        if i > 0 {
                            assert(tokens[i] == rest[i - 1]);
                        }
                    }
                    assert forall|i: int, j: int| 0 <= i < j < tokens.len() implies (
                    #[trigger] tokens[i]).end < (#[trigger] tokens[j]).start by {
                        assert(tokens[j] == rest[j - 1]);
                        if i > 0 {
                            assert(tokens[i] == rest[i - 1]);
                        }
                    }
                }
            },
        }
    }
}

/// Space, tab, line feed, form feed and carriage return.
pub open spec fn is_blank(byte: u8) -> bool {
    byte == 0x20 || byte == 0x09 || byte == LINE_FEED || byte == 0x0c || byte == 0x0d
}

/// A text of blanks and separators alone has its tokens, and every one of
/// them is a separator.
pub proof fn lemma_blank_text_gives_separators(src: Seq<u8>, pos: int)
    requires
        0 <= pos,
        forall|i: int| 0 <= i < src.len() ==> is_blank(#[trigger] src[i]) || is_separator(src[i]),
    ensures
        tokens_from(src, pos) matches Some(tokens) && forall|i: int|
            0 <= i < tokens.len() ==> (#[trigger] tokens[i]).token_type == TokenType::Separator,
    decreases src.len() - pos,
{
    if pos < src.len() {
        assert(is_blank(src[pos]) || is_separator(src[pos]));
        if pos + 1 < src.len() {
            assert(is_blank(src[pos + 1]) || is_separator(src[pos + 1]));
        }
        match scan(src, pos) {
            Scan::Skip => {
                lemma_blank_text_gives_separators(src, pos + 1);
            },
            Scan::Unterminated => {},
            Scan::Token { token_type, end } => {
                lemma_blank_text_gives_separators(src, end + 1);
                let rest = tokens_from(src, end + 1)->0;
                let tokens = seq![token_of(src, token_type, pos, end)] + rest;
                assert forall|i: int| 0 <= i < tokens.len() implies (#[trigger] tokens[i]).token_type
                    == TokenType::Separator by {
                    if i > 0 {
                        assert(tokens[i] == rest[i - 1]);
                    }
                }
            },
        }
    }
}

/// Whether the bytes that a token spans are what the rule for its class asks
/// for.
pub open spec fn fits_its_class(src: Seq<u8>, token: TokenView) -> bool {
    let start = token.start as int;
    let end = token.end as int;
    match token.token_type {
        TokenType::Keyword => {
            &&& forall|i: int| start <= i <= end ==> is_letter(#[trigger] src[i])
            &&& end + 1 < src.len() ==> !is_letter(src[end + 1])
        },
        TokenType::Number => {
            &&& forall|i: int| start <= i <= end ==> is_digit(#[trigger] src[i])
            &&& end + 1 < src.len() ==> !is_digit(src[end + 1])
        },
        TokenType::String => {
            &&& start < end
            &&& src[start] == QUOTE
            &&& src[end] == QUOTE
            &&& forall|i: int| start < i < end ==> #[trigger] src[i] != QUOTE
        },
        TokenType::Operator => {
            &&& is_operator(src[start])
            &&& if end == start {
                end + 1 < src.len() ==> src[end + 1] != EQUALS
            } else {
                end == start + 1 && src[end] == EQUALS
            }
        },
        TokenType::Symbol => end == start + 1 && src[start] == COLON && src[end] == COLON,
        TokenType::Separator => end == start && is_separator(src[start]),
    }
}

/// Every token spans what the rule for its class asks for: a keyword-like token
/// a run of letters that no letter follows, a number a run of digits that no
/// digit follows, a string two quotes with none between them, an operator one
/// operator sign and the `=` behind it if there is one, a symbol `::`, a
/// separator one separator sign.
pub proof fn lemma_tokens_fit_their_class(src: Seq<u8>, pos: int)
    requires
        0 <= pos,
    ensures
        tokens_from(src, pos) matches Some(tokens) ==> forall|i: int|
            0 <= i < tokens.len() ==> fits_its_class(src, #[trigger] tokens[i]),
    decreases src.len() - pos,
{
    if pos < src.len() {
        lemma_scan_bounds(src, pos);
        match scan(src, pos) {
            Scan::Skip => {
                lemma_tokens_fit_their_class(src, pos + 1);
            },
            Scan::Unterminated => {},
            Scan::Token { token_type, end } => {
                lemma_tokens_fit_their_class(src, end + 1);
                if let Some(rest) = tokens_from(src, end + 1) {
                    let first = token_of(src, token_type, pos, end);
                    let tokens = seq![first] + rest;
                    lemma_run_end(src, pos, TokenType::Keyword);
                    lemma_run_end(src, pos, TokenType::Number);
                    lemma_closing_quote(src, pos + 1);
                    assert(fits_its_class(src, first));
                    assert forall|i: int| 0 <= i < tokens.len() implies fits_its_class(
                        src,
                        #[trigger] tokens[i],
                    ) by {
                        if i > 0 {
                            assert(tokens[i] == rest[i - 1]);
                        }
                    }
                }
            },
        }
    }
}

/// The text of a keyword-like token is letters, and the text of a number is
/// decimal digits: what the tokenizer calls a number, a reader of numbers can
/// read.
pub proof fn lemma_runs_are_ascii(src: Seq<u8>, pos: int)
    requires
        0 <= pos,
    ensures
        tokens_from(src, pos) matches Some(tokens) ==> forall|i: int|
            0 <= i < tokens.len() ==> {
                &&& (#[trigger] tokens[i]).token_type == TokenType::Number ==> is_decimal(
                    tokens[i].content,
                )
                &&& tokens[i].token_type == TokenType::Keyword ==> tokens[i].content.len() > 0
                    && forall|k: int|
                    0 <= k < tokens[i].content.len() ==> ('a' <= #[trigger] tokens[i].content[k]
                        <= 'z' || 'A' <= tokens[i].content[k] <= 'Z')
            },
    decreases src.len() - pos,
{
    if pos < src.len() {
        lemma_scan_bounds(src, pos);
        match scan(src, pos) {
            Scan::Skip => {
                lemma_runs_are_ascii(src, pos + 1);
            },
            Scan::Unterminated => {},
            Scan::Token { token_type, end } => {
                lemma_runs_are_ascii(src, end + 1);
                if let Some(rest) = tokens_from(src, end + 1) {
                    let first = token_of(src, token_type, pos, end);
                    let tokens = seq![first] + rest;
                    let bytes = src.subrange(pos, end + 1);
                    if token_type == TokenType::Number || token_type == TokenType::Keyword {
                        lemma_run_end(src, pos, token_type);
                        assert forall|k: int| 0 <= k < bytes.len() implies in_run(
                            token_type,
                            #[trigger] bytes[k],
                        ) by {
                            assert(bytes[k] == src[pos + k]);
                        }
                        lemma_decode_ascii(bytes);
                        assert forall|k: int| 0 <= k < first.content.len() implies (token_type
                            == TokenType::Number ==> '0' <= #[trigger] first.content[k] <= '9')
                            && (token_type == TokenType::Keyword ==> ('a' <= first.content[k]
                            <= 'z' || 'A' <= first.content[k] <= 'Z')) by {
                            assert(first.content[k] == bytes[k] as char);
                            assert(in_run(token_type, bytes[k]));
                        }
                    }
                    assert forall|i: int| 0 <= i < tokens.len() implies {
                        &&& (#[trigger] tokens[i]).token_type == TokenType::Number ==> is_decimal(
                            tokens[i].content,
                        )
                        &&& tokens[i].token_type == TokenType::Keyword ==> tokens[i].content.len()
                            > 0 && forall|k: int|
                            0 <= k < tokens[i].content.len() ==> ('a'
                                <= #[trigger] tokens[i].content[k] <= 'z' || 'A'
                                <= tokens[i].content[k] <= 'Z')
                    } by {
                        if i > 0 {
                            assert(tokens[i] == rest[i - 1]);
                        } else {
                            assert(tokens[i] == first);
                        }
                    }
                }
            },
        }
    }
}

/// Whether one of the tokens spans the byte at `index`.
pub open spec fn is_spanned(tokens: Seq<TokenView>, index: int) -> bool {
    exists|i: int| 0 <= i < tokens.len() && (#[trigger] tokens[i]).start <= index <= tokens[i].end
}

/// Nothing is lost: a byte that no token spans is one at which no token
/// starts.
pub proof fn lemma_gaps_are_passed_over(src: Seq<u8>, pos: int)
    requires
        0 <= pos,
    ensures
        tokens_from(src, pos) matches Some(tokens) ==> forall|index: int|
            pos <= index < src.len() && !is_spanned(tokens, index) ==> #[trigger] scan(src, index)
                is Skip,
    decreases src.len() - pos,
{
    if pos < src.len() {
        lemma_scan_bounds(src, pos);
        match scan(src, pos) {
            Scan::Skip => {
                lemma_gaps_are_passed_over(src, pos + 1);
            },
            Scan::Unterminated => {},
            Scan::Token { token_type, end } => {
                lemma_gaps_are_passed_over(src, end + 1);
                if let Some(rest) = tokens_from(src, end + 1) {
                    let tokens = seq![token_of(src, token_type, pos, end)] + rest;
                    assert forall|index: int|
                        pos <= index < src.len() && !is_spanned(tokens, index) implies #[trigger] scan(
                        src,
                        index,
                    ) is Skip by {
                        assert(tokens[0].start == pos && tokens[0].end == end);
                        assert(index > end);
                        if is_spanned(rest, index) {
                            let i = choose|i: int|
                                0 <= i < rest.len() && (#[trigger] rest[i]).start <= index
                                    <= rest[i].end;
                            assert(tokens[i + 1] == rest[i]);
                        }
                    }
                }
            },
        }
    }
}

/// How many `"` the text holds from `pos` on.
pub open spec fn quotes_from(src: Seq<u8>, pos: int) -> nat
    decreases src.len() - pos,
{
    if pos < 0 || pos >= src.len() {
        0
    } else if src[pos] == QUOTE {
        1 + quotes_from(src, pos + 1)
    } else {
        quotes_from(src, pos + 1)
    }
}

/// A stretch of the text without a `"` adds nothing to the count.
proof fn lemma_no_quotes_between(src: Seq<u8>, from: int, to: int)
    requires
        0 <= from <= to <= src.len(),
        forall|i: int| from <= i < to ==> #[trigger] src[i] != QUOTE,
    ensures
        quotes_from(src, from) == quotes_from(src, to),
    decreases to - from,
{
    if from < to {
        lemma_no_quotes_between(src, from + 1, to);
    }
}

/// A text leaves a string open exactly if it holds an odd number of `"`: the
/// quotes pair up in the order in which they stand, and nothing else makes
/// the tokenizer fail.
pub proof fn lemma_open_string_iff_odd_quotes(src: Seq<u8>, pos: int)
    requires
        0 <= pos,
    ensures
        tokens_from(src, pos) is None <==> quotes_from(src, pos) % 2 == 1,
    decreases src.len() - pos,
{
    if pos < src.len() {
        lemma_scan_bounds(src, pos);
        lemma_run_end(src, pos, TokenType::Keyword);
        lemma_run_end(src, pos, TokenType::Number);
        lemma_closing_quote(src, pos + 1);
        match scan(src, pos) {
            Scan::Skip => {
                lemma_open_string_iff_odd_quotes(src, pos + 1);
            },
            Scan::Unterminated => {
                lemma_no_quotes_between(src, pos + 1, src.len() as int);
            },
            Scan::Token { token_type, end } => {
                lemma_open_string_iff_odd_quotes(src, end + 1);
                if token_type == TokenType::String {
                    lemma_no_quotes_between(src, pos + 1, end);
                } else {
                    lemma_no_quotes_between(src, pos, end + 1);
                }
            },
        }
    }
}

/// A `-` is an operator wherever it stands, so the text `->` falls into the
/// two operator tokens `-` and `>`: the rule for symbols comes too late for it.
pub proof fn lemma_minus_is_an_operator(src: Seq<u8>, pos: int)
    requires
        0 <= pos < src.len(),
        src[pos] == MINUS,
    ensures
        scan(src, pos) matches Scan::Token { token_type, end } && token_type
            == TokenType::Operator,
{
}

/// A token begins with the character of its first byte.
proof fn lemma_first_character(src: Seq<u8>, start: int, end: int)
    requires
        valid_utf8(src),
        0 <= start <= end < src.len(),
        src[start] < 0x80,
        src[end] < 0x80,
    ensures
        decode_utf8(src.subrange(start, end + 1)).len() > 0,
        decode_utf8(src.subrange(start, end + 1))[0] == src[start] as char,
{
    let bytes = src.subrange(start, end + 1);
    let first = src[start];
    lemma_ascii_byte_boundaries(src, start);
    lemma_ascii_byte_boundaries(src, end);
    let front = src.subrange(0, end + 1);
    valid_utf8_split(src, end + 1);
    is_char_boundary_iff_not_is_continuation_byte(src, start);
    is_char_boundary_iff_not_is_continuation_byte(front, start);
    valid_utf8_split(front, start);
    assert(front.subrange(start, front.len() as int) =~= bytes);
    assert(bytes[0] == first);
    assert(first & 0x7f == first) by (bit_vector)
        requires
            first < 0x80,
    ;
    let head = decode_first_scalar(bytes);
    assert(head == first);
    char_u32_cast(head as char, head);
}

/// No token is the arrow `->`: the tokenizer makes two operators of it, and
/// of nothing else an arrow.
pub proof fn lemma_no_token_is_an_arrow(src: Seq<u8>, pos: int)
    requires
        valid_utf8(src),
        0 <= pos,
    ensures
        tokens_from(src, pos) matches Some(tokens) ==> forall|i: int|
            0 <= i < tokens.len() ==> (#[trigger] tokens[i]).content != "->"@,
    decreases src.len() - pos,
{
    reveal_strlit("->");
    if pos < src.len() {
        lemma_scan_bounds(src, pos);
        match scan(src, pos) {
            Scan::Skip => {
                lemma_no_token_is_an_arrow(src, pos + 1);
            },
            Scan::Unterminated => {},
            Scan::Token { token_type, end } => {
                lemma_no_token_is_an_arrow(src, end + 1);
                if let Some(rest) = tokens_from(src, end + 1) {
                    let first = token_of(src, token_type, pos, end);
                    let tokens = seq![first] + rest;
                    lemma_first_character(src, pos, end);
                    assert(first.content != "->"@) by {
                        if src[pos] == MINUS {
                            let bytes = src.subrange(pos, end + 1);
                            assert(token_type == TokenType::Operator);
                            assert forall|k: int| 0 <= k < bytes.len() implies #[trigger] bytes[k]
                                < 0x80 by {
                                assert(bytes[k] == src[pos + k]);
                            }
                            lemma_decode_ascii(bytes);
                            if end == pos + 1 {
                                assert(bytes[1] == EQUALS);
                                assert(first.content[1] == bytes[1] as char);
                            }
                        } else {
                            assert(first.content[0] == src[pos] as char);
                            assert("->"@[0] == '-');
                        }
                    }
                    assert forall|i: int| 0 <= i < tokens.len() implies (#[trigger] tokens[i]).content
                        != "->"@ by {
                        if i > 0 {
                            assert(tokens[i] == rest[i - 1]);
                        }
                    }
                }
            },
        }
    }
}

} // verus!
