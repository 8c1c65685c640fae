//! The tokenizer: from source text to positioned tokens.
pub mod lexicon;
pub mod spelling;

use crate::common::ast::{Diagnostic, Span, WithSpan};
use crate::common::text::text_is;
use crate::common::token::{BinaryOperator, SpannedToken, Token, UnaryOperator, tokens_view};
use crate::tokenizer::lexicon::{
    Cursor, Lexed, Scan, cursor_ok, digits_end, digits_value, identifier_end,
    invalid_symbol_message, is_digit, is_identifier_part, is_identifier_start, is_whitespace,
    lemma_digits_end, lemma_identifier_end, lemma_next_token, lemma_skip_block,
    lemma_skip_empty, lemma_skip_line, lex, moved, next_token, quote_at, skip_block, skip_empty,
    skip_line, skip_string, start, step, tokens_from, word_token,
};
use vstd::prelude::*;

verus! {

/// A failure to tokenize.
#[derive(Debug, PartialEq)]
pub struct LexicalError {
    pub message: String,
    pub span: Span,
}

impl View for LexicalError {
    type V = Diagnostic;

    open spec fn view(&self) -> Diagnostic {
        Diagnostic { message: self.message@, span: self.span }
    }
}

impl LexicalError {
    /// An error with the given message about the given position.
    pub fn new(message: String, span: Span) -> (r: Self)
        ensures
            r.message == message,
            r.span == span,
    {
        Self { message, span }
    }

    /// The error as it is shown to a user.
    pub fn to_text(&self) -> (r: String)
        ensures
            r@ == crate::common::ast::report("LexicalError"@, self@),
    {
        crate::common::ast::report_text("LexicalError", &self.message, self.span)
    }
}

/// A tokenizer over one source text. It reads the text once, front to
/// back; what it has read stays read.
pub struct Tokenizer {
    input: String,
    chars: Vec<char>,
    ascii: bool,
    position: usize,
    current_span: Span,
}

/// The tokenizer under its shorter name.
pub type Lexer = Tokenizer;

/// The characters of a string, in order.
fn characters(text: &str) -> (chars: Vec<char>)
    ensures
        chars@ == text@,
{
    let mut chars: Vec<char> = Vec::new();
    for c in it: text.chars()
        invariant
            it.seq() == text@,
            chars@ == it.seq().take(it.index()),
    {
        chars.push(c);
        assert(it.seq().take(it.index() + 1) =~= it.seq().take(it.index()).push(c));
    }
    assert(chars@ =~= text@);
    chars
}

/// Whether `c` separates tokens.
fn whitespace(c: char) -> (r: bool)
    ensures
        r == is_whitespace(c),
{
    let u: u32 = c as u32;
    (0x09 <= u && u <= 0x0d) || u == 0x20 || u == 0x85 || u == 0xa0 || u == 0x1680 || (0x2000 <= u
        && u <= 0x200a) || u == 0x2028 || u == 0x2029 || u == 0x202f || u == 0x205f || u
        == 0x3000
}

fn digit(c: char) -> (r: bool)
    ensures
        r == is_digit(c),
{
    '0' <= c && c <= '9'
}

fn identifier_start(c: char) -> (r: bool)
    ensures
        r == is_identifier_start(c),
{
    ('a' <= c && c <= 'z') || ('A' <= c && c <= 'Z') || c == '_'
}

fn identifier_part(c: char) -> (r: bool)
    ensures
        r == is_identifier_part(c),
{
    identifier_start(c) || digit(c)
}

impl Tokenizer {
    /// The text that the tokenizer reads.
    pub closed spec fn text(&self) -> Seq<char> {
        self.input@
    }

    /// Where in the text the tokenizer stands.
    pub closed spec fn cursor(&self) -> Cursor {
        Cursor {
            pos: self.position as int,
            line: self.current_span.line as int,
            column: self.current_span.column as int,
        }
    }

    /// The tokenizer's invariant: it stands at a position that reading its
    /// text can reach.
    pub closed spec fn wf(&self) -> bool {
        &&& self.chars@ == self.input@
        &&& self.ascii ==> vstd::string::string_is_ascii(&self.input)
        &&& cursor_ok(self.input@, self.cursor())
    }

    /// Whether every position in the text can be counted.
    spec fn fits(&self) -> bool {
        self.chars@.len() + 2 <= usize::MAX
    }

    /// A tokenizer that stands at the start of the text.
    pub fn new(input: String) -> (r: Self)
        ensures
            r.wf(),
            r.text() == input@,
            r.cursor() == start(),
    {
        let chars = characters(input.as_str());
        let ascii = input.as_str().is_ascii();
        Tokenizer { input, chars, ascii, position: 0, current_span: Span { line: 1, column: 0 } }
    }

    /// Tokenizes the rest of the text: the tokens in order, the end marker
    /// last, or the first failure.
    pub fn tokenize(&mut self) -> (r: Result<Vec<SpannedToken>, LexicalError>)
        requires
            old(self).wf(),
        ensures
            final(self).wf(),
            final(self).text() == old(self).text(),
            match lex(old(self).text(), old(self).cursor()) {
                Lexed::Tokens { tokens, end } => r is Ok && tokens_view(r->Ok_0@) == tokens
                    && final(self).cursor() == end,
                Lexed::Failure { diagnostic, at } => r is Err && r->Err_0@ == diagnostic
                    && final(self).cursor() == at,
            },
    {
        if self.chars.len() > usize::MAX - 2 {
            return Err(LexicalError::new(String::from_str("input too long"), self.current_span));
        }
        let mut tokens: Vec<SpannedToken> = Vec::new();
        assert(tokens_view(tokens@) =~= Seq::empty());
        loop
            invariant
                self.wf(),
                self.fits(),
                self.text() == old(self).text(),
                tokens_from(old(self).text(), old(self).cursor(), Seq::empty()) == tokens_from(
                    self.text(),
                    self.cursor(),
                    tokens_view(tokens@),
                ),
            decreases self.chars@.len() - self.position,
        {
            proof {
                lemma_next_token(self.text(), self.cursor());
            }
            let ghost before = tokens_view(tokens@);
            match self.next_token() {
                Ok(token) => {
                    let done = match token.node {
                        Token::EOF => true,
                        _ => false,
                    };
                    proof {
                        assert(tokens_view(tokens@.push(token)) =~= before.push(token@));
                    }
                    tokens.push(token);
                    if done {
                        return Ok(tokens);
                    }
                },
                Err(error) => {
                    return Err(error);
                },
            }
        }
    }

    /// Reads the next token.
    fn next_token(&mut self) -> (r: Result<SpannedToken, LexicalError>)
        requires
            old(self).wf(),
            old(self).fits(),
        ensures
            final(self).input == old(self).input,
            final(self).chars == old(self).chars,
            final(self).ascii == old(self).ascii,
            final(self).wf(),
            match next_token(old(self).text(), old(self).cursor()) {
                Scan::Token { token, span, next } => r is Ok && r->Ok_0@ == (WithSpan {
                    node: token,
                    span,
                }) && final(self).cursor() == next,
                Scan::Failure { diagnostic, at } => r is Err && r->Err_0@ == diagnostic
                    && final(self).cursor() == at,
            },
    {
        proof {
            lemma_next_token(self.text(), self.cursor());
            lemma_skip_empty(self.text(), self.cursor());
        }
        self.skip_empty();
        let ghost c = self.cursor();
        let Some(first) = self.peek_next() else {
            return Ok(
                WithSpan {
                    node: Token::EOF,
                    span: Span {
                        line: self.current_span.line,
                        column: self.current_span.column + 1,
                    },
                },
            );
        };
        if identifier_start(first) {
            let token = self.consume_identifier();
            Ok(WithSpan { node: token, span: self.current_span })
        } else if digit(first) {
            match self.consume_numeric_literal() {
                Some(token) => Ok(WithSpan { node: token, span: self.current_span }),
                None => Err(
                    LexicalError::new(
                        String::from_str("numeric literal out of range"),
                        self.current_span,
                    ),
                ),
            }
        } else if first == '"' {
            let token = self.consume_string_literal();
            Ok(WithSpan { node: token, span: self.current_span })
        } else {
            let followed_by_equals = match self.peek_next_n(1) {
                Some(second) => second == '=',
                None => false,
            };
            let token = if first == '=' {
                if followed_by_equals {
                    self.advance();
                    Token::BinaryOperator(BinaryOperator::Equal)
                } else {
                    Token::Assign
                }
            } else if first == '!' {
                if followed_by_equals {
                    self.advance();
                    Token::BinaryOperator(BinaryOperator::NotEqual)
                } else {
                    Token::UnaryOperator(UnaryOperator::Not)
                }
            } else if first == '<' {
                if followed_by_equals {
                    self.advance();
                    Token::BinaryOperator(BinaryOperator::LessThanOrEqual)
                } else {
                    Token::BinaryOperator(BinaryOperator::LessThan)
                }
            } else if first == '>' {
                if followed_by_equals {
                    self.advance();
                    Token::BinaryOperator(BinaryOperator::GreaterThanOrEqual)
                } else {
                    Token::BinaryOperator(BinaryOperator::GreaterThan)
                }
            } else if first == '+' {
                Token::BinaryOperator(BinaryOperator::Add)
            } else if first == '-' {
                Token::BinaryOperator(BinaryOperator::Subtract)
            } else if first == '*' {
                Token::BinaryOperator(BinaryOperator::Multiply)
            } else if first == '/' {
                Token::BinaryOperator(BinaryOperator::Divide)
            } else if first == '%' {
                Token::BinaryOperator(BinaryOperator::Modulo)
            } else if first == ';' {
                Token::Semicolon
            } else if first == ':' {
                Token::Colon
            } else if first == ',' {
                Token::Comma
            } else if first == '(' {
                Token::LeftParen
            } else if first == ')' {
                Token::RightParen
            } else if first == '{' {
                Token::LeftBrace
            } else if first == '}' {
                Token::RightBrace
            } else {
                let mut message = String::from_str("invalid symbol: ");
                let symbol = self.slice(self.position, self.position + 1);
                message.append(symbol);
                assert(message@ =~= invalid_symbol_message(first));
                self.advance();
                return Err(LexicalError::new(message, self.current_span));
            };
            self.advance();
            Ok(WithSpan { node: token, span: self.current_span })
        }
    }

    /// Reads a number. `None` if it does not fit the language's integers.
    fn consume_numeric_literal(&mut self) -> (r: Option<Token>)
        requires
            old(self).wf(),
            old(self).fits(),
            old(self).position < old(self).chars@.len(),
        ensures
            final(self).input == old(self).input,
            final(self).chars == old(self).chars,
            final(self).ascii == old(self).ascii,
            final(self).cursor() == moved(
                old(self).cursor(),
                digits_end(old(self).text(), old(self).position as int) - old(self).position,
            ),
            ({
                let value = digits_value(
                    old(self).text().subrange(
                        old(self).position as int,
                        digits_end(old(self).text(), old(self).position as int),
                    ),
                );
                if value <= i32::MAX {
                    r is Some && r->Some_0@ == crate::common::token::TokenView::NumericLiteral(
                        value as i32,
                    )
                } else {
                    r is None
                }
            }),
    {
        let ghost text = self.text();
        let start = self.position;
        let mut value: u64 = 0;
        let mut fits = true;
        proof {
            lemma_digits_end(text, start as int);
            assert(text.subrange(start as int, start as int) =~= Seq::<char>::empty());
        }
        while self.position < self.chars.len() && digit(self.chars[self.position])
            invariant
                self.wf(),
                self.fits(),
                self.input == old(self).input,
                self.chars == old(self).chars,
                self.ascii == old(self).ascii,
                text == self.text(),
                start == old(self).position,
                start <= self.position <= digits_end(text, start as int) <= text.len(),
                digits_end(text, start as int) == digits_end(text, self.position as int),
                self.cursor() == moved(old(self).cursor(), self.position - start),
                fits ==> value == digits_value(text.subrange(start as int, self.position as int))
                    && value <= i32::MAX,
                !fits ==> digits_value(text.subrange(start as int, self.position as int))
                    > i32::MAX,
            decreases self.chars@.len() - self.position,
        {
            let c = self.chars[self.position];
            let d: u64 = (c as u32 - '0' as u32) as u64;
            proof {
                lemma_digits_end(text, self.position + 1);
                let shorter = text.subrange(start as int, self.position as int);
                let longer = text.subrange(start as int, self.position as int + 1);
                assert(longer.drop_last() =~= shorter);
                assert(longer.last() == c);
                assert(digits_value(longer) == digits_value(shorter) * 10 + d);
            }
            if fits {
                value = value * 10 + d;
                if value > 2147483647 {
                    fits = false;
                }
            }
            self.advance();
        }
        proof {
            lemma_digits_end(text, self.position as int);
        }
        if fits {
            Some(Token::NumericLiteral(value as i32))
        } else {
            None
        }
    }

    /// Reads a string literal; the cursor stands at its opening quote.
    fn consume_string_literal(&mut self) -> (r: Token)
        requires
            old(self).wf(),
            old(self).fits(),
            old(self).position < old(self).chars@.len(),
            old(self).chars@[old(self).position as int] == '"',
        ensures
            final(self).input == old(self).input,
            final(self).chars == old(self).chars,
            final(self).ascii == old(self).ascii,
            final(self).wf(),
            final(self).cursor() == skip_string(
                old(self).text(),
                step(old(self).text(), old(self).cursor()),
            ),
            r@ == crate::common::token::TokenView::StringLiteral(
                old(self).text().subrange(
                    old(self).position + 1,
                    quote_at(old(self).text(), old(self).position + 1),
                ),
            ),
    {
        let ghost text = self.text();
        self.advance();
        let start = self.position;
        let ghost after_quote = self.cursor();
        let mut end = self.position;
        loop
            invariant_except_break
                self.wf(),
                self.cursor().column <= self.position,
                skip_string(text, after_quote) == skip_string(text, self.cursor()),
                quote_at(text, start as int) == quote_at(text, self.position as int),
            invariant
                self.fits(),
                self.input == old(self).input,
                self.chars == old(self).chars,
                self.ascii == old(self).ascii,
                text == self.text(),
                start <= self.position <= text.len(),
                start == old(self).position + 1,
            ensures
                self.wf(),
                self.cursor() == skip_string(text, after_quote),
                start <= end <= text.len(),
                end == quote_at(text, start as int),
            decreases self.chars@.len() - self.position,
        {
            match self.advance() {
                Some(c) => {
                    if c == '"' {
                        end = self.position - 1;
                        break;
                    }
                },
                None => {
                    end = self.position;
                    break;
                },
            }
        }
        let content = self.slice(start, end);
        Token::StringLiteral(String::from_str(content))
    }

    /// Reads an identifier or a truth value.
    fn consume_identifier(&mut self) -> (r: Token)
        requires
            old(self).wf(),
            old(self).fits(),
            old(self).position < old(self).chars@.len(),
        ensures
            final(self).input == old(self).input,
            final(self).chars == old(self).chars,
            final(self).ascii == old(self).ascii,
            final(self).cursor() == moved(
                old(self).cursor(),
                identifier_end(old(self).text(), old(self).position as int) - old(self).position,
            ),
            r@ == word_token(
                old(self).text().subrange(
                    old(self).position as int,
                    identifier_end(old(self).text(), old(self).position as int),
                ),
            ),
    {
        let ghost text = self.text();
        let start = self.position;
        proof {
            lemma_identifier_end(text, start as int);
        }
        while self.position < self.chars.len() && identifier_part(self.chars[self.position])
            invariant
                self.wf(),
                self.fits(),
                self.input == old(self).input,
                self.chars == old(self).chars,
                self.ascii == old(self).ascii,
                text == self.text(),
                start == old(self).position,
                start <= self.position <= identifier_end(text, start as int) <= text.len(),
                identifier_end(text, start as int) == identifier_end(text, self.position as int),
                self.cursor() == moved(old(self).cursor(), self.position - start),
            decreases self.chars@.len() - self.position,
        {
            proof {
                lemma_identifier_end(text, self.position + 1);
            }
            self.advance();
        }
        proof {
            lemma_identifier_end(text, self.position as int);
        }
        let word = String::from_str(self.slice(start, self.position));
        if text_is(&word, "true") {
            Token::BooleanLiteral(true)
        } else if text_is(&word, "false") {
            Token::BooleanLiteral(false)
        } else {
            Token::Identifier(word)
        }
    }

    /// Reads to the end of the line.
    fn skip_line(&mut self)
        requires
            old(self).wf(),
            old(self).fits(),
        ensures
            final(self).input == old(self).input,
            final(self).chars == old(self).chars,
            final(self).ascii == old(self).ascii,
            final(self).wf(),
            final(self).cursor() == skip_line(old(self).text(), old(self).cursor()),
    {
        let ghost text = self.text();
        loop
            invariant_except_break
                skip_line(text, old(self).cursor()) == skip_line(text, self.cursor()),
            invariant
                self.wf(),
                self.fits(),
                self.input == old(self).input,
                self.chars == old(self).chars,
                self.ascii == old(self).ascii,
                text == self.text(),
            ensures
                self.cursor() == skip_line(text, old(self).cursor()),
            decreases self.chars@.len() - self.position,
        {
            if self.position >= self.chars.len() {
                break;
            }
            match self.advance() {
                Some(c) => {
                    if c == '\n' {
                        break;
                    }
                },
                None => {
                    break;
                },
            }
        }
    }

    /// Reads to the end of a block comment.
    fn skip_block(&mut self)
        requires
            old(self).wf(),
            old(self).fits(),
        ensures
            final(self).input == old(self).input,
            final(self).chars == old(self).chars,
            final(self).ascii == old(self).ascii,
            final(self).wf(),
            final(self).cursor() == skip_block(old(self).text(), old(self).cursor()),
    {
        let ghost text = self.text();
        loop
            invariant_except_break
                skip_block(text, old(self).cursor()) == skip_block(text, self.cursor()),
            invariant
                self.wf(),
                self.fits(),
                self.input == old(self).input,
                self.chars == old(self).chars,
                self.ascii == old(self).ascii,
                text == self.text(),
            ensures
                self.cursor() == skip_block(text, old(self).cursor()),
            decreases self.chars@.len() - self.position,
        {
            if self.position >= self.chars.len() {
                break;
            }
            match self.advance() {
                Some(c) => {
                    if c == '*' {
                        if self.peek_next() == Some('/') {
                            self.advance();
                            break;
                        }
                    }
                },
                None => {
                    break;
                },
            }
        }
    }

    /// Skips white space and comments.
    fn skip_empty(&mut self)
        requires
            old(self).wf(),
            old(self).fits(),
        ensures
            final(self).input == old(self).input,
            final(self).chars == old(self).chars,
            final(self).ascii == old(self).ascii,
            final(self).wf(),
            final(self).cursor() == skip_empty(old(self).text(), old(self).cursor()),
    {
        let ghost text = self.text();
        loop
            invariant_except_break
                skip_empty(text, old(self).cursor()) == skip_empty(text, self.cursor()),
            invariant
                self.wf(),
                self.fits(),
                self.input == old(self).input,
                self.chars == old(self).chars,
                self.ascii == old(self).ascii,
                text == self.text(),
            ensures
                self.cursor() == skip_empty(text, old(self).cursor()),
            decreases self.chars@.len() - self.position,
        {
            let Some(c) = self.peek_next() else {
                break;
            };
            if whitespace(c) {
                self.advance();
            } else if c == '/' {
                match self.peek_next_n(1) {
                    Some('/') => {
                        self.advance();
                        self.advance();
                        proof {
                            lemma_skip_line(text, self.cursor());
                        }
                        self.skip_line();
                    },
                    Some('*') => {
                        self.advance();
                        self.advance();
                        proof {
                            lemma_skip_block(text, self.cursor());
                        }
                        self.skip_block();
                    },
                    _ => {
                        break;
                    },
                }
            } else {
                break;
            }
        }
    }

    /// The characters of the text from `from` up to `to`. Where the text
    /// is plain ASCII, a character's index is its byte's, and no decoding
    /// is needed to find the part.
    fn slice(&self, from: usize, to: usize) -> (r: &str)
        requires
            self.wf(),
            from <= to <= self.chars@.len(),
        ensures
            r@ == self.text().subrange(from as int, to as int),
    {
        if self.ascii {
            self.input.as_str().substring_ascii(from, to)
        } else {
            self.input.as_str().substring_char(from, to)
        }
    }

    /// The next character, if any, without reading it.
    fn peek_next(&self) -> (r: Option<char>)
        requires
            self.wf(),
        ensures
            r == if self.position < self.text().len() {
                Some(self.text()[self.position as int])
            } else {
                None
            },
    {
        if self.position < self.chars.len() {
            Some(self.chars[self.position])
        } else {
            None
        }
    }

    /// The character `n` places after the next one, if any.
    fn peek_next_n(&self, n: usize) -> (r: Option<char>)
        requires
            self.wf(),
            self.fits(),
            n <= 1,
        ensures
            r == if self.position + n < self.text().len() {
                Some(self.text()[self.position + n])
            } else {
                None
            },
    {
        if self.position + n < self.chars.len() {
            Some(self.chars[self.position + n])
        } else {
            None
        }
    }

    /// Reads one character.
    fn advance(&mut self) -> (r: Option<char>)
        requires
            old(self).wf(),
            old(self).fits(),
            old(self).cursor().column <= old(self).position,
        ensures
            final(self).input == old(self).input,
            final(self).chars == old(self).chars,
            final(self).ascii == old(self).ascii,
            final(self).wf(),
            final(self).cursor() == step(old(self).text(), old(self).cursor()),
            r == if old(self).position < old(self).text().len() {
                Some(old(self).text()[old(self).position as int])
            } else {
                None
            },
    {
        let current = self.peek_next();
        match current {
            Some(c) => {
                if c == '\n' {
                    self.current_span = Span { line: self.current_span.line + 1, column: 0 };
                } else {
                    self.current_span = Span {
                        line: self.current_span.line,
                        column: self.current_span.column + 1,
                    };
                }
                self.position = self.position + 1;
            },
            None => {
                self.current_span = Span {
                    line: self.current_span.line,
                    column: self.current_span.column + 1,
                };
            },
        }
        current
    }
}

} // verus!
