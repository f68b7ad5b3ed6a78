use vstd::prelude::*;
use vstd::string::StringSliceAdditionalSpecFns;
use vstd::utf8::*;
use crate::lexer::laws;
use crate::lexer::rules;
use crate::lexer::rules::Scan;
use crate::lexer::token::{tokens_view, Token, TokenPosition, TokenType, TokenView};
use crate::text::{lemma_ascii_byte_boundaries, substring};

verus! {

/// What can go wrong while the text is read.
#[derive(Debug, Clone, Copy, PartialEq, Eq, Structural)]
pub enum LexerError {
    /// A look ahead went past the end of the text.
    PeekNone,
    /// The text ends inside a string.
    InvalidString,
}

impl LexerError {
    /// The error in words.
    pub fn message(&self) -> (text: String)
        ensures
            text@ == (match self {
                LexerError::PeekNone => "Peek out of range!"@,
                LexerError::InvalidString => "Invalid string! Did you forget a quote?"@,
            }),
    {
        match self {
            LexerError::PeekNone => "Peek out of range!".to_owned(),
            LexerError::InvalidString => "Invalid string! Did you forget a quote?".to_owned(),
        }
    }
}

/// A tokenizer: one forward pass over the bytes of a text.
pub struct Lexer {
    tokens: Vec<Token>,
    input: String,
    current_token_start: usize,
    current_pos: usize,
}

/// The tokens `done`, followed by the tokens `rest` if there are any to follow.
pub open spec fn followed_by(done: Seq<TokenView>, rest: Option<Seq<TokenView>>) -> Option<
    Seq<TokenView>,
> {
    match rest {
        Some(more) => Some(done + more),
        None => None,
    }
}

impl Lexer {
    /// The bytes of the text that the lexer reads.
    pub closed spec fn source(&self) -> Seq<u8> {
        encode_utf8(self.input@)
    }

    /// The tokens that the lexer has made so far.
    pub closed spec fn tokens(&self) -> Seq<TokenView> {
        tokens_view(self.tokens@)
    }

    /// The index of the byte that the lexer stands on.
    pub closed spec fn cursor(&self) -> int {
        self.current_pos as int
    }

    /// The index of the first byte of the token that the lexer is reading.
    spec fn token_start(&self) -> int {
        self.current_token_start as int
    }

    /// The cursor stands on a byte of the text, or at 0 where the text is
    /// empty, and the token being read starts at or before the cursor.
    pub closed spec fn well_formed(&self) -> bool {
        &&& self.current_token_start <= self.current_pos
        &&& self.current_pos < self.source().len() || (self.current_pos == 0
            && self.source().len() == 0)
    }

    /// Nothing but the cursor differs from `before`.
    spec fn moved_from(&self, before: &Lexer) -> bool {
        &&& self.well_formed()
        &&& self.input == before.input
        &&& self.tokens == before.tokens
        &&& self.current_token_start == before.current_token_start
    }

    /// The token from `token_start` to the cursor has been added, with this
    /// class, and nothing else differs from `before`.
    spec fn added_to(&self, before: &Lexer, token_type: TokenType) -> bool {
        &&& self.well_formed()
        &&& self.input == before.input
        &&& self.current_token_start == before.current_token_start
        &&& self.tokens() == before.tokens().push(
            rules::token_of(self.source(), token_type, self.token_start(), self.cursor()),
        )
    }

    /// A lexer that has read nothing.
    pub fn new() -> (lexer: Self)
        ensures
            lexer.well_formed(),
            lexer.source() == Seq::<u8>::empty(),
            lexer.tokens() == Seq::<TokenView>::empty(),
            lexer.cursor() == 0,
    {
        let lexer = Self {
            tokens: Vec::new(),
            input: String::new(),
            current_token_start: 0,
            current_pos: 0,
        };
        assert(lexer.source() =~= Seq::<u8>::empty()) by {
            reveal_with_fuel(encode_utf8, 1);
        }
        assert(lexer.tokens() =~= Seq::<TokenView>::empty());
        lexer
    }

    /// Reads `input` from its first byte to its last and gives its tokens, in
    /// the order of the text.
    ///
    /// The result depends on the text alone: whatever the lexer held before is
    /// dropped. The one failure is a string that the text leaves open, which
    /// it does exactly if it holds an odd number of `"`. Either way the cursor
    /// comes to rest on the last byte of the text.
    pub fn lex(&mut self, input: String) -> (result: Result<&Vec<Token>, LexerError>)
        ensures
            final(self).well_formed(),
            final(self).source() == encode_utf8(input@),
            final(self).cursor() == rules::last_index(encode_utf8(input@)),
            result is Err <==> laws::quotes_from(encode_utf8(input@), 0) % 2 == 1,
            match result {
                Ok(tokens) => {
                    &&& rules::tokenize(encode_utf8(input@)) == Some(tokens_view(tokens@))
                    &&& laws::spans_in_order(encode_utf8(input@), tokens_view(tokens@), 0)
                    &&& final(self).tokens() == tokens_view(tokens@)
                },
                Err(error) => {
                    &&& error == LexerError::InvalidString
                    &&& rules::tokenize(encode_utf8(input@)) is None
                },
            },
    {
        broadcast use encode_utf8_valid_utf8;

        self.input = input;
        self.tokens = Vec::new();
        self.current_pos = 0;
        self.current_token_start = 0;

        let ghost src = self.source();
        assert(self.tokens() + rules::tokens_from(src, 0)->0 =~= rules::tokens_from(src, 0)->0);
        loop
            invariant_except_break
                rules::tokenize(src) == followed_by(
                    self.tokens(),
                    rules::tokens_from(src, self.cursor()),
                ),
            invariant
                self.well_formed(),
                self.source() == src,
                src == encode_utf8(input@),
            ensures
                rules::tokenize(src) == Some(self.tokens()),
                self.cursor() == rules::last_index(src),
            decreases src.len() - self.cursor(),
        {
            let ghost at = self.cursor();
            let ghost before = self.tokens();
            proof {
                if at < src.len() {
                    rules::lemma_scan_bounds(src, at);
                }
            }
            match self.read_token() {
                Err(err) => {
                    proof {
                        laws::lemma_open_string_iff_odd_quotes(src, 0);
                    }
                    return Err(err);
                },
                _ => {},
            }
            proof {
                let rest = rules::tokens_from(src, self.cursor() + 1);
                if rest is Some {
                    if at < src.len() && rules::scan(src, at) is Token {
                        let token = self.tokens().last();
                        assert(before + (seq![token] + rest->0) =~= before.push(token) + rest->0);
                    }
                    assert(self.tokens() + Seq::<TokenView>::empty() =~= self.tokens());
                }
            }

            if !self.step() {
                break ;
            }
        }
        proof {
            laws::lemma_tokens_span_the_text(src, 0);
            laws::lemma_open_string_iff_odd_quotes(src, 0);
        }

        Ok(&self.tokens)
    }

    /// Reads the token that starts at the cursor, if one starts there, and
    /// leaves the cursor on its last byte.
    fn read_token(&mut self) -> (read: Result<(), LexerError>)
        requires
            old(self).well_formed(),
        ensures
            final(self).well_formed(),
            final(self).source() == old(self).source(),
            match read {
                Ok(_) => {
                    if old(self).cursor() < old(self).source().len() {
                        match rules::scan(old(self).source(), old(self).cursor()) {
                            Scan::Token { token_type, end } => {
                                &&& final(self).cursor() == end
                                &&& final(self).tokens() == old(self).tokens().push(
                                    rules::token_of(
                                        old(self).source(),
                                        token_type,
                                        old(self).cursor(),
                                        end,
                                    ),
                                )
                            },
                            Scan::Skip => {
                                &&& final(self).cursor() == old(self).cursor()
                                &&& final(self).tokens() == old(self).tokens()
                            },
                            Scan::Unterminated => false,
                        }
                    } else {
                        &&& final(self).cursor() == old(self).cursor()
                        &&& final(self).tokens() == old(self).tokens()
                    }
                },
                Err(error) => {
                    &&& error == LexerError::InvalidString
                    &&& old(self).cursor() < old(self).source().len()
                    &&& rules::scan(old(self).source(), old(self).cursor()) is Unterminated
                    &&& final(self).cursor() == rules::last_index(old(self).source())
                },
            },
    {
        self.current_token_start = self.current_pos;

        if self.is_letter(self.peek(0)) {
            self.get_keyword_token();
        } else if self.is_digit(self.peek(0)) {
            self.get_number_token();
        } else if self.is_string(self.peek(0)) {
            match self.get_string_token() {
                Err(err) => {
                    return Err(err);
                },
                _ => {},
            }
        } else if self.is_operator() {
            self.get_operator_token();
        } else if self.is_symbol() {
            self.get_symbol_token();
        } else if self.is_separator() {
            self.get_separator_token();
        }
        Ok(())
    }

    /// Moves the cursor one byte forward if a further byte exists, and says
    /// whether it moved.
    fn step(&mut self) -> (advanced: bool)
        requires
            old(self).well_formed(),
        ensures
            final(self).moved_from(old(self)),
            advanced == (old(self).cursor() + 1 < old(self).source().len()),
            final(self).cursor() == (if advanced {
                old(self).cursor() + 1
            } else {
                old(self).cursor()
            }),
    {
        if self.peek(1).is_ok() {
            self.current_pos += 1;
            return true;
        }
        false
    }

    /// The byte `steps` bytes ahead of the cursor, as a character. Nothing is
    /// consumed.
    pub fn peek(&self, steps: usize) -> (peek: Result<char, LexerError>)
        requires
            self.well_formed(),
        ensures
            self.source().len() <= usize::MAX,
            match peek {
                Ok(c) => self.cursor() + steps < self.source().len() && c == self.source()[
                    self.cursor() + steps
                ] as char,
                Err(error) => error == LexerError::PeekNone && self.cursor() + steps
                    >= self.source().len(),
            },
    {
        let bytes = self.input.as_str().as_bytes();
        if steps >= bytes.len() - self.current_pos {
            return Err(LexerError::PeekNone);
        }
        Ok(bytes[self.current_pos + steps] as char)
    }

    /// Adds the token that spans the bytes from `token_start` to the cursor.
    fn add_token(&mut self, token_type: TokenType)
        requires
            old(self).well_formed(),
            old(self).cursor() < old(self).source().len(),
            old(self).source()[old(self).token_start()] < 0x80,
            old(self).source()[old(self).cursor()] < 0x80,
        ensures
            final(self).added_to(old(self), token_type),
            final(self).cursor() == old(self).cursor(),
    {
        broadcast use encode_utf8_valid_utf8;

        let text = self.input.as_str();
        let length = text.as_bytes().len();
        proof {
            assert(self.current_pos < length);
            lemma_ascii_byte_boundaries(self.source(), self.token_start());
            lemma_ascii_byte_boundaries(self.source(), self.cursor());
        }
        let content = substring(text, self.current_token_start, self.current_pos + 1);
        let token = Token {
            token_type,
            content,
            position: TokenPosition { start: self.current_token_start, end: self.current_pos },
        };
        assert(token@ == rules::token_of(
            self.source(),
            token_type,
            self.token_start(),
            self.cursor(),
        ));
        self.tokens.push(token);
        assert(self.tokens() =~= old(self).tokens().push(token@));
    }

    /// Whether the character is a letter.
    fn is_letter(&self, peek: Result<char, LexerError>) -> (letter: bool)
        ensures
            letter == (peek matches Ok(c) && (('a' <= c <= 'z') || ('A' <= c <= 'Z'))),
    {
        match peek {
            Ok(c) => ('a' <= c && c <= 'z') || ('A' <= c && c <= 'Z'),
            Err(_) => false,
        }
    }

    /// Whether the character is a digit.
    fn is_digit(&self, peek: Result<char, LexerError>) -> (digit: bool)
        ensures
            digit == (peek matches Ok(c) && '0' <= c <= '9'),
    {
        match peek {
            Ok(c) => '0' <= c && c <= '9',
            Err(_) => false,
        }
    }

    /// Whether the character is a `"`.
    fn is_string(&self, peek: Result<char, LexerError>) -> (quote: bool)
        ensures
            quote == (peek matches Ok(c) && c == '"'),
    {
        match peek {
            Ok('"') => true,
            _ => false,
        }
    }

    /// Whether the cursor stands on one of `= + - * / % > <`.
    fn is_operator(&self) -> (operator: bool)
        requires
            self.well_formed(),
        ensures
            operator == (self.cursor() < self.source().len() && rules::is_operator(
                self.source()[self.cursor()],
            )),
    {
        match self.peek(0) {
            Ok('=') | Ok('+') | Ok('-') | Ok('*') | Ok('/') | Ok('%') | Ok('>') | Ok('<') => true,
            _ => false,
        }
    }

    /// Whether the cursor stands on the first byte of `::` or `->`.
    fn is_symbol(&self) -> (symbol: bool)
        requires
            self.well_formed(),
        ensures
            symbol == rules::is_symbol(self.source(), self.cursor()),
    {
        match (self.peek(0), self.peek(1)) {
            (Ok(':'), Ok(':')) | (Ok('-'), Ok('>')) => true,
            _ => false,
        }
    }

    /// Whether the cursor stands on a line feed or one of `, ( ) { }`.
    fn is_separator(&self) -> (separator: bool)
        requires
            self.well_formed(),
        ensures
            separator == (self.cursor() < self.source().len() && rules::is_separator(
                self.source()[self.cursor()],
            )),
    {
        match self.peek(0) {
            Ok('\n') | Ok(',') | Ok('(') | Ok(')') | Ok('{') | Ok('}') => true,
            _ => false,
        }
    }

    /// Reads the run of letters that starts at the cursor, and adds it as a
    /// keyword-like token.
    fn get_keyword_token(&mut self)
        requires
            old(self).well_formed(),
            old(self).token_start() == old(self).cursor(),
            old(self).cursor() < old(self).source().len(),
            rules::is_letter(old(self).source()[old(self).cursor()]),
        ensures
            final(self).added_to(old(self), TokenType::Keyword),
            final(self).cursor() == rules::run_end(
                old(self).source(),
                old(self).cursor(),
                TokenType::Keyword,
            ),
    {
        while self.is_letter(self.peek(1))
            invariant
                self.moved_from(old(self)),
                self.token_start() <= self.cursor() < self.source().len(),
                rules::is_letter(self.source()[self.cursor()]),
                rules::run_end(self.source(), self.token_start(), TokenType::Keyword)
                    == rules::run_end(self.source(), self.cursor(), TokenType::Keyword),
            decreases self.source().len() - self.cursor(),
        {
            self.step();
        }
        self.add_token(TokenType::Keyword);
    }

    /// Reads the run of digits that starts at the cursor, and adds it as a
    /// number token.
    fn get_number_token(&mut self)
        requires
            old(self).well_formed(),
            old(self).token_start() == old(self).cursor(),
            old(self).cursor() < old(self).source().len(),
            rules::is_digit(old(self).source()[old(self).cursor()]),
        ensures
            final(self).added_to(old(self), TokenType::Number),
            final(self).cursor() == rules::run_end(
                old(self).source(),
                old(self).cursor(),
                TokenType::Number,
            ),
    {
        while self.is_digit(self.peek(1))
            invariant
                self.moved_from(old(self)),
                self.token_start() <= self.cursor() < self.source().len(),
                rules::is_digit(self.source()[self.cursor()]),
                rules::run_end(self.source(), self.token_start(), TokenType::Number)
                    == rules::run_end(self.source(), self.cursor(), TokenType::Number),
            decreases self.source().len() - self.cursor(),
        {
            self.step();
        }
        self.add_token(TokenType::Number);
    }

    /// Reads from the `"` at the cursor to the next `"`, and adds both and
    /// what stands between them as a string token. Without a next `"` nothing
    /// is added.
    fn get_string_token(&mut self) -> (read: Result<(), LexerError>)
        requires
            old(self).well_formed(),
            old(self).token_start() == old(self).cursor(),
            old(self).cursor() < old(self).source().len(),
            old(self).source()[old(self).cursor()] == rules::QUOTE,
        ensures
            match read {
                Ok(_) => {
                    &&& final(self).added_to(old(self), TokenType::String)
                    &&& rules::closing_quote(old(self).source(), old(self).cursor() + 1) == Some(
                        final(self).cursor(),
                    )
                },
                Err(error) => {
                    &&& error == LexerError::InvalidString
                    &&& final(self).moved_from(old(self))
                    &&& final(self).cursor() == rules::last_index(old(self).source())
                    &&& rules::closing_quote(old(self).source(), old(self).cursor() + 1) is None
                },
            },
    {
        if !self.step() {
            return Err(LexerError::InvalidString);
        }
        while !self.is_string(self.peek(0))
            invariant
                self.moved_from(old(self)),
                old(self).token_start() == old(self).cursor(),
                self.token_start() < self.cursor() < self.source().len(),
                rules::closing_quote(self.source(), self.token_start() + 1)
                    == rules::closing_quote(self.source(), self.cursor()),
            decreases self.source().len() - self.cursor(),
        {
            if !self.step() {
                assert(rules::closing_quote(self.source(), self.cursor() + 1) is None);
                return Err(LexerError::InvalidString);
            }
        }

        self.add_token(TokenType::String);
        Ok(())
    }

    /// Adds the operator at the cursor as a token, together with a `=` that
    /// follows it directly.
    fn get_operator_token(&mut self)
        requires
            old(self).well_formed(),
            old(self).token_start() == old(self).cursor(),
            old(self).cursor() < old(self).source().len(),
            rules::is_operator(old(self).source()[old(self).cursor()]),
        ensures
            final(self).added_to(old(self), TokenType::Operator),
            final(self).cursor() == (if old(self).cursor() + 1 < old(self).source().len() && old(
                self,
            ).source()[old(self).cursor() + 1] == rules::EQUALS {
                old(self).cursor() + 1
            } else {
                old(self).cursor()
            }),
    {
        match self.peek(1) {
            Ok('=') => {
                self.step();
            },
            _ => {},
        }
        self.add_token(TokenType::Operator)
    }

    /// Adds the two bytes at the cursor as a symbol token.
    fn get_symbol_token(&mut self)
        requires
            old(self).well_formed(),
            old(self).token_start() == old(self).cursor(),
            rules::is_symbol(old(self).source(), old(self).cursor()),
        ensures
            final(self).added_to(old(self), TokenType::Symbol),
            final(self).cursor() == old(self).cursor() + 1,
    {
        self.step();
        self.add_token(TokenType::Symbol);
    }

    /// Adds the byte at the cursor as a separator token.
    fn get_separator_token(&mut self)
        requires
            old(self).well_formed(),
            old(self).token_start() == old(self).cursor(),
            old(self).cursor() < old(self).source().len(),
            rules::is_separator(old(self).source()[old(self).cursor()]),
        ensures
            final(self).added_to(old(self), TokenType::Separator),
            final(self).cursor() == old(self).cursor(),
    {
        self.add_token(TokenType::Separator);
    }
}

} // verus!
