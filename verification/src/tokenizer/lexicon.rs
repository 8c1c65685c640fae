//! What tokenizing means: the token sequence of a text as a function of its
//! characters.
use crate::common::ast::{Diagnostic, Span, WithSpan};
use crate::common::token::{BinaryOperator, TokenView, UnaryOperator};
use vstd::prelude::*;

verus! {

/// A reading position in a text: the index of the next character, the
/// current line, and the column of the last character read on that line.
pub struct Cursor {
    pub pos: int,
    pub line: int,
    pub column: int,
}

/// The characters that separate tokens: the Unicode white space.
pub open spec fn is_whitespace(c: char) -> bool {
    let u = c as u32;
    (0x09 <= u <= 0x0d) || u == 0x20 || u == 0x85 || u == 0xa0 || u == 0x1680 || (0x2000 <= u
        <= 0x200a) || u == 0x2028 || u == 0x2029 || u == 0x202f || u == 0x205f || u == 0x3000
}

/// The decimal digits.
pub open spec fn is_digit(c: char) -> bool {
    '0' <= c <= '9'
}

/// The characters that may begin an identifier.
pub open spec fn is_identifier_start(c: char) -> bool {
    ('a' <= c <= 'z') || ('A' <= c <= 'Z') || c == '_'
}

/// The characters that may continue an identifier.
pub open spec fn is_identifier_part(c: char) -> bool {
    is_identifier_start(c) || is_digit(c)
}

/// The start of a text.
pub open spec fn start() -> Cursor {
    Cursor { pos: 0, line: 1, column: 0 }
}

/// Whether a cursor is one that reading `text` from its start can reach.
pub open spec fn cursor_ok(text: Seq<char>, c: Cursor) -> bool {
    &&& 0 <= c.pos <= text.len()
    &&& 1 <= c.line <= c.pos + 1
    &&& 0 <= c.column <= c.pos + 1
    &&& (c.column <= c.pos || c.pos == text.len())
}

/// The source position that a cursor stands at.
pub open spec fn span_at(c: Cursor) -> Span {
    Span { line: c.line as usize, column: c.column as usize }
}

/// Reads one character: a line feed starts a new line, anything else moves
/// one column on. At the end of the text only the column moves.
pub open spec fn step(text: Seq<char>, c: Cursor) -> Cursor {
    if 0 <= c.pos < text.len() {
        if text[c.pos] == '\n' {
            Cursor { pos: c.pos + 1, line: c.line + 1, column: 0 }
        } else {
            Cursor { pos: c.pos + 1, line: c.line, column: c.column + 1 }
        }
    } else {
        Cursor { pos: c.pos, line: c.line, column: c.column + 1 }
    }
}

/// Reads to the end of the line, the line feed included.
pub open spec fn skip_line(text: Seq<char>, c: Cursor) -> Cursor
    decreases text.len() - c.pos,
{
    if 0 <= c.pos < text.len() {
        if text[c.pos] == '\n' {
            step(text, c)
        } else {
            skip_line(text, step(text, c))
        }
    } else {
        c
    }
}

/// Reads to the end of a block comment, the closing `*/` included; an
/// unclosed comment runs to the end of the text.
pub open spec fn skip_block(text: Seq<char>, c: Cursor) -> Cursor
    decreases text.len() - c.pos,
{
    if 0 <= c.pos < text.len() {
        if text[c.pos] == '*' && c.pos + 1 < text.len() && text[c.pos + 1] == '/' {
            step(text, step(text, c))
        } else {
            skip_block(text, step(text, c))
        }
    } else {
        c
    }
}

/// Skipping a line never moves backwards and keeps the cursor in the text.
pub proof fn lemma_skip_line(text: Seq<char>, c: Cursor)
    requires
        cursor_ok(text, c),
    ensures
        cursor_ok(text, skip_line(text, c)),
        skip_line(text, c).pos >= c.pos,
    decreases text.len() - c.pos,
{
    if 0 <= c.pos < text.len() {
        if text[c.pos] != '\n' {
            lemma_skip_line(text, step(text, c));
        }
    }
}

/// Skipping a block comment never moves backwards and keeps the cursor in
/// the text.
pub proof fn lemma_skip_block(text: Seq<char>, c: Cursor)
    requires
        cursor_ok(text, c),
    ensures
        cursor_ok(text, skip_block(text, c)),
        skip_block(text, c).pos >= c.pos,
    decreases text.len() - c.pos,
{
    if 0 <= c.pos < text.len() {
        if text[c.pos] == '*' && c.pos + 1 < text.len() && text[c.pos + 1] == '/' {
        } else {
            lemma_skip_block(text, step(text, c));
        }
    }
}

/// Skips what separates tokens: white space, `//` comments to the end of
/// their line, and `/* */` comments.
pub open spec fn skip_empty(text: Seq<char>, c: Cursor) -> Cursor
    decreases text.len() - c.pos,
{
    if cursor_ok(text, c) && c.pos < text.len() {
        if is_whitespace(text[c.pos]) {
            skip_empty(text, step(text, c))
        } else if text[c.pos] == '/' && c.pos + 1 < text.len() && text[c.pos + 1] == '/' {
            proof {
                lemma_skip_line(text, step(text, step(text, c)));
            }
            skip_empty(text, skip_line(text, step(text, step(text, c))))
        } else if text[c.pos] == '/' && c.pos + 1 < text.len() && text[c.pos + 1] == '*' {
            proof {
                lemma_skip_block(text, step(text, step(text, c)));
            }
            skip_empty(text, skip_block(text, step(text, step(text, c))))
        } else {
            c
        }
    } else {
        c
    }
}

/// After skipping, the cursor is in the text, not before where it was, and
/// either at the end or at a character that is not white space.
pub proof fn lemma_skip_empty(text: Seq<char>, c: Cursor)
    requires
        cursor_ok(text, c),
    ensures
        cursor_ok(text, skip_empty(text, c)),
        skip_empty(text, c).pos >= c.pos,
    decreases text.len() - c.pos,
{
    if c.pos < text.len() {
        if is_whitespace(text[c.pos]) {
            lemma_skip_empty(text, step(text, c));
        } else if text[c.pos] == '/' && c.pos + 1 < text.len() && text[c.pos + 1] == '/' {
            lemma_skip_line(text, step(text, step(text, c)));
            lemma_skip_empty(text, skip_line(text, step(text, step(text, c))));
        } else if text[c.pos] == '/' && c.pos + 1 < text.len() && text[c.pos + 1] == '*' {
            lemma_skip_block(text, step(text, step(text, c)));
            lemma_skip_empty(text, skip_block(text, step(text, step(text, c))));
        }
    }
}

/// The index just past the identifier characters that start at `pos`.
pub open spec fn identifier_end(text: Seq<char>, pos: int) -> int
    decreases text.len() - pos,
{
    if 0 <= pos < text.len() && is_identifier_part(text[pos]) {
        identifier_end(text, pos + 1)
    } else {
        pos
    }
}

/// The index just past the digits that start at `pos`.
pub open spec fn digits_end(text: Seq<char>, pos: int) -> int
    decreases text.len() - pos,
{
    if 0 <= pos < text.len() && is_digit(text[pos]) {
        digits_end(text, pos + 1)
    } else {
        pos
    }
}

/// The index of the first double quote at or after `pos`, or the length of
/// the text if there is none.
pub open spec fn quote_at(text: Seq<char>, pos: int) -> int
    decreases text.len() - pos,
{
    if 0 <= pos < text.len() && text[pos] != '"' {
        quote_at(text, pos + 1)
    } else {
        pos
    }
}

/// Reads the rest of a string literal, from just after its opening quote
/// through its closing quote. A literal that the text ends in is taken as
/// it stands.
pub open spec fn skip_string(text: Seq<char>, c: Cursor) -> Cursor
    decreases text.len() - c.pos,
{
    if 0 <= c.pos < text.len() {
        if text[c.pos] == '"' {
            step(text, c)
        } else {
            skip_string(text, step(text, c))
        }
    } else {
        step(text, c)
    }
}

/// The number that a sequence of digits denotes.
pub open spec fn digits_value(digits: Seq<char>) -> nat
    decreases digits.len(),
{
    if digits.len() == 0 {
        0
    } else {
        (digits_value(digits.drop_last()) * 10 + (digits.last() as u32 - '0' as u32)) as nat
    }
}

/// The cursor after `n` characters of one line have been read.
pub open spec fn moved(c: Cursor, n: int) -> Cursor {
    Cursor { pos: c.pos + n, line: c.line, column: c.column + n }
}

/// The complaint about a character that begins no token.
pub open spec fn invalid_symbol_message(c: char) -> Seq<char> {
    "invalid symbol: "@.push(c)
}

/// The complaint about a number that does not fit the language's integers.
pub open spec fn number_range_message() -> Seq<char> {
    "numeric literal out of range"@
}

/// The complaint about a text too long for its positions to be counted.
pub open spec fn too_long_message() -> Seq<char> {
    "input too long"@
}

/// What reading one token gives: the token, its position, and the cursor
/// after it, or a diagnostic and the cursor at which reading stopped.
pub enum Scan {
    Token { token: TokenView, span: Span, next: Cursor },
    Failure { diagnostic: Diagnostic, at: Cursor },
}

/// The token made of one or two operator characters at `c`, whose first
/// character is `first`; `None` if `first` begins no such token.
pub open spec fn punctuation(text: Seq<char>, c: Cursor, first: char) -> Option<(TokenView, int)> {
    let followed_by_equals = c.pos + 1 < text.len() && text[c.pos + 1] == '=';
    if first == '=' {
        if followed_by_equals {
            Some((TokenView::BinaryOperator(BinaryOperator::Equal), 2))
        } else {
            Some((TokenView::Assign, 1))
        }
    } else if first == '!' {
        if followed_by_equals {
            Some((TokenView::BinaryOperator(BinaryOperator::NotEqual), 2))
        } else {
            Some((TokenView::UnaryOperator(UnaryOperator::Not), 1))
        }
    } else if first == '<' {
        if followed_by_equals {
            Some((TokenView::BinaryOperator(BinaryOperator::LessThanOrEqual), 2))
        } else {
            Some((TokenView::BinaryOperator(BinaryOperator::LessThan), 1))
        }
    } else if first == '>' {
        if followed_by_equals {
            Some((TokenView::BinaryOperator(BinaryOperator::GreaterThanOrEqual), 2))
        } else {
            Some((TokenView::BinaryOperator(BinaryOperator::GreaterThan), 1))
        }
    } else if first == '+' {
        Some((TokenView::BinaryOperator(BinaryOperator::Add), 1))
    } else if first == '-' {
        Some((TokenView::BinaryOperator(BinaryOperator::Subtract), 1))
    } else if first == '*' {
        Some((TokenView::BinaryOperator(BinaryOperator::Multiply), 1))
    } else if first == '/' {
        Some((TokenView::BinaryOperator(BinaryOperator::Divide), 1))
    } else if first == '%' {
        Some((TokenView::BinaryOperator(BinaryOperator::Modulo), 1))
    } else if first == ';' {
        Some((TokenView::Semicolon, 1))
    } else if first == ':' {
        Some((TokenView::Colon, 1))
    } else if first == ',' {
        Some((TokenView::Comma, 1))
    } else if first == '(' {
        Some((TokenView::LeftParen, 1))
    } else if first == ')' {
        Some((TokenView::RightParen, 1))
    } else if first == '{' {
        Some((TokenView::LeftBrace, 1))
    } else if first == '}' {
        Some((TokenView::RightBrace, 1))
    } else {
        None
    }
}

/// The token that a word stands for: the two truth values are literals,
/// every other word is an identifier.
pub open spec fn word_token(word: Seq<char>) -> TokenView {
    if word == "true"@ {
        TokenView::BooleanLiteral(true)
    } else if word == "false"@ {
        TokenView::BooleanLiteral(false)
    } else {
        TokenView::Identifier(word)
    }
}

/// Reads the next token at or after `c`. A token's position is that of its
/// last character; the end marker stands one column past the last
/// character read.
pub open spec fn next_token(text: Seq<char>, c: Cursor) -> Scan {
    let c = skip_empty(text, c);
    if !(0 <= c.pos < text.len()) {
        Scan::Token {
            token: TokenView::EOF,
            span: Span { line: c.line as usize, column: (c.column + 1) as usize },
            next: c,
        }
    } else {
        let first = text[c.pos];
        if is_identifier_start(first) {
            let end = identifier_end(text, c.pos);
            let next = moved(c, end - c.pos);
            Scan::Token {
                token: word_token(text.subrange(c.pos, end)),
                span: span_at(next),
                next,
            }
        } else if is_digit(first) {
            let end = digits_end(text, c.pos);
            let next = moved(c, end - c.pos);
            let value = digits_value(text.subrange(c.pos, end));
            if value <= i32::MAX {
                Scan::Token {
                    token: TokenView::NumericLiteral(value as i32),
                    span: span_at(next),
                    next,
                }
            } else {
                Scan::Failure {
                    diagnostic: Diagnostic { message: number_range_message(), span: span_at(next) },
                    at: next,
                }
            }
        } else if first == '"' {
            let next = skip_string(text, step(text, c));
            Scan::Token {
                token: TokenView::StringLiteral(
                    text.subrange(c.pos + 1, quote_at(text, c.pos + 1)),
                ),
                span: span_at(next),
                next,
            }
        } else {
            match punctuation(text, c, first) {
                Some((token, width)) => {
                    let next = moved(c, width);
                    Scan::Token { token, span: span_at(next), next }
                },
                None => {
                    let next = step(text, c);
                    Scan::Failure {
                        diagnostic: Diagnostic {
                            message: invalid_symbol_message(first),
                            span: span_at(next),
                        },
                        at: next,
                    }
                },
            }
        }
    }
}

/// What tokenizing gives: the tokens, the end marker last, or the first
/// diagnostic; either way with the cursor at which reading stopped.
pub enum Lexed {
    Tokens { tokens: Seq<WithSpan<TokenView>>, end: Cursor },
    Failure { diagnostic: Diagnostic, at: Cursor },
}

/// An identifier ends within the text, holds identifier characters only,
/// and ends before a character that is none.
pub proof fn lemma_identifier_end(text: Seq<char>, pos: int)
    requires
        0 <= pos <= text.len(),
    ensures
        pos <= identifier_end(text, pos) <= text.len(),
        forall|i: int| pos <= i < identifier_end(text, pos) ==> is_identifier_part(#[trigger] text[i]),
        identifier_end(text, pos) < text.len() ==> !is_identifier_part(
            text[identifier_end(text, pos)],
        ),
    decreases text.len() - pos,
{
    if pos < text.len() && is_identifier_part(text[pos]) {
        lemma_identifier_end(text, pos + 1);
    }
}

/// A run of digits ends within the text, holds digits only, and ends
/// before a character that is none.
pub proof fn lemma_digits_end(text: Seq<char>, pos: int)
    requires
        0 <= pos <= text.len(),
    ensures
        pos <= digits_end(text, pos) <= text.len(),
        forall|i: int| pos <= i < digits_end(text, pos) ==> is_digit(#[trigger] text[i]),
        digits_end(text, pos) < text.len() ==> !is_digit(text[digits_end(text, pos)]),
    decreases text.len() - pos,
{
    if pos < text.len() && is_digit(text[pos]) {
        lemma_digits_end(text, pos + 1);
    }
}

/// Reading a string never moves backwards and keeps the cursor in the
/// text.
pub proof fn lemma_skip_string(text: Seq<char>, c: Cursor)
    requires
        cursor_ok(text, c),
        c.column <= c.pos,
    ensures
        cursor_ok(text, skip_string(text, c)),
        skip_string(text, c).pos >= c.pos,
    decreases text.len() - c.pos,
{
    if c.pos < text.len() {
        if text[c.pos] != '"' {
            lemma_skip_string(text, step(text, c));
        }
    }
}

/// A token other than the end marker takes at least one character, and
/// reading leaves the cursor in the text.
pub proof fn lemma_next_token(text: Seq<char>, c: Cursor)
    requires
        cursor_ok(text, c),
    ensures
        match next_token(text, c) {
            Scan::Token { token, span, next } => {
                &&& cursor_ok(text, next)
                &&& token != TokenView::EOF ==> next.pos > c.pos
            },
            Scan::Failure { diagnostic, at } => cursor_ok(text, at),
        },
{
    lemma_skip_empty(text, c);
    let c1 = skip_empty(text, c);
    if c1.pos < text.len() {
        let first = text[c1.pos];
        if is_identifier_start(first) {
            lemma_identifier_end(text, c1.pos);
            assert(identifier_end(text, c1.pos) > c1.pos);
            let word = text.subrange(c1.pos, identifier_end(text, c1.pos));
            assert(word_token(word) != TokenView::EOF);
        } else if is_digit(first) {
            lemma_digits_end(text, c1.pos);
            assert(digits_end(text, c1.pos) > c1.pos);
        } else if first == '"' {
            lemma_skip_string(text, step(text, c1));
        } else {
        }
    }
}

/// The tokens of `text` from `c` on, appended to those already read. From
/// a cursor that reading the text cannot reach, and at which no tokenizer
/// ever stands, one token is read: the guard makes the definition well
/// founded.
pub open spec fn tokens_from(text: Seq<char>, c: Cursor, read: Seq<WithSpan<TokenView>>) -> Lexed
    decreases text.len() - c.pos,
{
    if cursor_ok(text, c) {
        match next_token(text, c) {
            Scan::Token { token, span, next } => {
                let read = read.push(WithSpan { node: token, span });
                if token == TokenView::EOF {
                    Lexed::Tokens { tokens: read, end: next }
                } else {
                    proof {
                        lemma_next_token(text, c);
                    }
                    tokens_from(text, next, read)
                }
            },
            Scan::Failure { diagnostic, at } => Lexed::Failure { diagnostic, at },
        }
    } else {
        match next_token(text, c) {
            Scan::Token { token, span, next } => Lexed::Tokens {
                tokens: read.push(WithSpan { node: token, span }),
                end: next,
            },
            Scan::Failure { diagnostic, at } => Lexed::Failure { diagnostic, at },
        }
    }
}

/// Whether the end marker stands at the end of the tokens read after the
/// first `before`, and nowhere else among them.
pub open spec fn ends_with_marker(tokens: Seq<WithSpan<TokenView>>, before: int) -> bool {
    &&& tokens.len() > before
    &&& tokens.last().node == TokenView::EOF
    &&& forall|i: int| before <= i < tokens.len() - 1 ==> (#[trigger] tokens[i]).node != TokenView::EOF
}

/// The tokens that tokenizing gives end with the end marker, and hold it
/// nowhere else.
pub proof fn law_tokens_end_with_marker(text: Seq<char>, c: Cursor, read: Seq<WithSpan<TokenView>>)
    requires
        cursor_ok(text, c),
    ensures
        match tokens_from(text, c, read) {
            Lexed::Tokens { tokens, end } => ends_with_marker(tokens, read.len() as int) && tokens.take(
                read.len() as int,
            ) == read,
            Lexed::Failure { diagnostic, at } => true,
        },
    decreases text.len() - c.pos,
{
    match next_token(text, c) {
        Scan::Token { token, span, next } => {
            let more = read.push(WithSpan { node: token, span });
            if token != TokenView::EOF {
                lemma_next_token(text, c);
                law_tokens_end_with_marker(text, next, more);
                match tokens_from(text, next, more) {
                    Lexed::Tokens { tokens, end } => {
                        assert(tokens.take(more.len() as int) == more);
                        assert forall|i: int| 0 <= i < more.len() implies tokens[i] == more[i] by {
                            assert(tokens.take(more.len() as int)[i] == more[i]);
                        }
                        assert(tokens.take(read.len() as int) =~= read);
                        assert forall|i: int| read.len() <= i < tokens.len() - 1 implies (
                        #[trigger] tokens[i]).node != TokenView::EOF by {
                            if i == read.len() {
                                assert(tokens[i] == more[i]);
                            }
                        }
                    },
                    Lexed::Failure { diagnostic, at } => {},
                }
            } else {
                assert(more.take(read.len() as int) =~= read);
            }
        },
        Scan::Failure { diagnostic, at } => {},
    }
}

/// The tokens of `text` from `c` on. A text so long that its positions
/// cannot be counted is refused.
pub open spec fn lex(text: Seq<char>, c: Cursor) -> Lexed {
    if text.len() + 2 > usize::MAX {
        Lexed::Failure {
            diagnostic: Diagnostic { message: too_long_message(), span: span_at(c) },
            at: c,
        }
    } else {
        tokens_from(text, c, Seq::empty())
    }
}

/// The tokens of a whole text.
pub open spec fn tokens_of(text: Seq<char>) -> Lexed {
    lex(text, start())
}

} // verus!
