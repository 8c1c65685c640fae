//! Tokenizing read backwards: the text that spells a token sequence, and
//! the proof that tokenizing it gives the tokens back.
use crate::common::ast::WithSpan;
use crate::common::text::{decimal, decimal_nat, digit_char};
use crate::common::token::{BinaryOperator, TokenView, UnaryOperator};
use crate::tokenizer::lexicon::{
    Cursor, Lexed, Scan, cursor_ok, digits_end, digits_value, identifier_end, is_digit,
    is_identifier_part, is_identifier_start, is_whitespace, lemma_next_token, lex, next_token,
    punctuation, quote_at, skip_empty, skip_string, start, step, tokens_from,
};
use vstd::prelude::*;

verus! {

/// The characters that spell a token. The end marker is spelled by
/// nothing.
pub open spec fn lexeme(token: TokenView) -> Seq<char> {
    match token {
        TokenView::Identifier(name) => name,
        TokenView::NumericLiteral(n) => decimal(n as int),
        TokenView::StringLiteral(text) => "\""@ + text + "\""@,
        TokenView::BooleanLiteral(b) => if b {
            "true"@
        } else {
            "false"@
        },
        TokenView::BinaryOperator(operator) => operator.symbol(),
        TokenView::UnaryOperator(_) => "!"@,
        TokenView::Comma => ","@,
        TokenView::Colon => ":"@,
        TokenView::Assign => "="@,
        TokenView::LeftParen => "("@,
        TokenView::RightParen => ")"@,
        TokenView::LeftBrace => "{"@,
        TokenView::RightBrace => "}"@,
        TokenView::Semicolon => ";"@,
        TokenView::EOF => Seq::empty(),
    }
}

/// The text that spells a token sequence: each token's characters, and a
/// space after each.
#[verifier::opaque]
pub open spec fn render(tokens: Seq<TokenView>) -> Seq<char>
    decreases tokens.len(),
{
    if tokens.len() == 0 {
        Seq::empty()
    } else {
        lexeme(tokens[0]) + " "@ + render(tokens.skip(1))
    }
}

/// No tokens are spelled by no text.
pub proof fn lemma_render_empty()
    ensures
        render(Seq::<TokenView>::empty()) == Seq::<char>::empty(),
{
    reveal_with_fuel(render, 1);
}

/// The text of a token sequence begins with the spelling of its first
/// token and a space.
pub proof fn lemma_render_first(tokens: Seq<TokenView>)
    requires
        tokens.len() > 0,
    ensures
        render(tokens) == lexeme(tokens[0]) + " "@ + render(tokens.skip(1)),
{
    reveal_with_fuel(render, 1);
}

/// Whether the name is spelled as names are: it begins with a letter or
/// an underscore, goes on with letters, digits and underscores, and is
/// neither of the words that spell the truth values.
pub open spec fn is_name(name: Seq<char>) -> bool {
    &&& name.len() > 0
    &&& is_identifier_start(name[0])
    &&& forall|i: int| 0 <= i < name.len() ==> is_identifier_part(#[trigger] name[i])
    &&& name != "true"@
    &&& name != "false"@
}

/// Whether tokenizing the token's spelling gives the token: a name is
/// spelled as names are, a number is not negative, a string holds no
/// double quote, and the token is not the end marker.
pub open spec fn lexable(token: TokenView) -> bool {
    match token {
        TokenView::Identifier(name) => is_name(name),
        TokenView::NumericLiteral(n) => n >= 0,
        TokenView::StringLiteral(text) => forall|i: int|
            0 <= i < text.len() ==> #[trigger] text[i] != '"',
        TokenView::EOF => false,
        _ => true,
    }
}

/// Whether every token of the sequence is lexable.
pub open spec fn all_lexable(tokens: Seq<TokenView>) -> bool {
    forall|i: int| 0 <= i < tokens.len() ==> lexable(#[trigger] tokens[i])
}

/// The tokens of a positioned token sequence.
pub open spec fn nodes(tokens: Seq<WithSpan<TokenView>>) -> Seq<TokenView> {
    tokens.map_values(|t: WithSpan<TokenView>| t.node)
}

/// The text from `pos` on begins with `spelling`, and a space follows.
pub open spec fn reads(text: Seq<char>, pos: int, spelling: Seq<char>) -> bool {
    &&& 0 <= pos
    &&& pos + spelling.len() < text.len()
    &&& forall|i: int| 0 <= i < spelling.len() ==> #[trigger] text[pos + i] == spelling[i]
    &&& text[pos + spelling.len()] == ' '
}

/// The spellings of the operators, character by character.
pub proof fn lemma_symbols()
    ensures
        BinaryOperator::Add.symbol() == seq!['+'],
        BinaryOperator::Subtract.symbol() == seq!['-'],
        BinaryOperator::Multiply.symbol() == seq!['*'],
        BinaryOperator::Divide.symbol() == seq!['/'],
        BinaryOperator::Modulo.symbol() == seq!['%'],
        BinaryOperator::NotEqual.symbol() == seq!['!', '='],
        BinaryOperator::Equal.symbol() == seq!['=', '='],
        BinaryOperator::GreaterThan.symbol() == seq!['>'],
        BinaryOperator::LessThan.symbol() == seq!['<'],
        BinaryOperator::GreaterThanOrEqual.symbol() == seq!['>', '='],
        BinaryOperator::LessThanOrEqual.symbol() == seq!['<', '='],
        "true"@ == seq!['t', 'r', 'u', 'e'],
        "false"@ == seq!['f', 'a', 'l', 's', 'e'],
        "!"@ == seq!['!'],
        ","@ == seq![','],
        ":"@ == seq![':'],
        "="@ == seq!['='],
        "("@ == seq!['('],
        ")"@ == seq![')'],
        "{"@ == seq!['{'],
        "}"@ == seq!['}'],
        ";"@ == seq![';'],
        "\""@ == seq!['"'],
        " "@ == seq![' '],
{
    reveal_strlit("!");
    reveal_strlit(",");
    reveal_strlit(":");
    reveal_strlit("=");
    reveal_strlit("(");
    reveal_strlit(")");
    reveal_strlit("{");
    reveal_strlit("}");
    reveal_strlit(";");
    reveal_strlit("\"");
    reveal_strlit(" ");
    assert("!"@ =~= seq!['!']);
    assert(","@ =~= seq![',']);
    assert(":"@ =~= seq![':']);
    assert("="@ =~= seq!['=']);
    assert("("@ =~= seq!['(']);
    assert(")"@ =~= seq![')']);
    assert("{"@ =~= seq!['{']);
    assert("}"@ =~= seq!['}']);
    assert(";"@ =~= seq![';']);
    assert("\""@ =~= seq!['"']);
    assert(" "@ =~= seq![' ']);
    reveal_strlit("+");
    reveal_strlit("-");
    reveal_strlit("*");
    reveal_strlit("/");
    reveal_strlit("%");
    reveal_strlit("!=");
    reveal_strlit("==");
    reveal_strlit(">");
    reveal_strlit("<");
    reveal_strlit(">=");
    reveal_strlit("<=");
    reveal_strlit("true");
    reveal_strlit("false");
    assert("+"@ =~= seq!['+']);
    assert("-"@ =~= seq!['-']);
    assert("*"@ =~= seq!['*']);
    assert("/"@ =~= seq!['/']);
    assert("%"@ =~= seq!['%']);
    assert("!="@ =~= seq!['!', '=']);
    assert("=="@ =~= seq!['=', '=']);
    assert(">"@ =~= seq!['>']);
    assert("<"@ =~= seq!['<']);
    assert(">="@ =~= seq!['>', '=']);
    assert("<="@ =~= seq!['<', '=']);
    assert("true"@ =~= seq!['t', 'r', 'u', 'e']);
    assert("false"@ =~= seq!['f', 'a', 'l', 's', 'e']);
}

/// A digit's character is a digit and stands for the digit.
proof fn lemma_digit_char(d: int)
    requires
        0 <= d < 10,
    ensures
        is_digit(digit_char(d)),
        digit_char(d) as u32 - '0' as u32 == d,
{
}

/// The decimal digits of a number are digits and denote the number.
pub proof fn lemma_decimal_nat(n: nat)
    ensures
        decimal_nat(n).len() > 0,
        forall|i: int| 0 <= i < decimal_nat(n).len() ==> is_digit(#[trigger] decimal_nat(n)[i]),
        digits_value(decimal_nat(n)) == n,
    decreases n,
{
    if n < 10 {
        lemma_digit_char(n as int);
        let s = decimal_nat(n);
        assert(s.drop_last() =~= Seq::<char>::empty());
        assert(digits_value(s.drop_last()) == 0);
    } else {
        lemma_decimal_nat(n / 10);
        lemma_digit_char((n % 10) as int);
        let shorter = decimal_nat(n / 10);
        let s = decimal_nat(n);
        assert(s.drop_last() =~= shorter);
        assert(s.last() == digit_char((n % 10) as int));
    }
}

/// Where the text reads a run of identifier characters and a space, the
/// identifier ends at the space.
proof fn lemma_identifier_run(text: Seq<char>, pos: int, n: int, k: int)
    requires
        0 <= pos,
        0 <= k <= n,
        pos + n < text.len(),
        forall|i: int| 0 <= i < n ==> is_identifier_part(#[trigger] text[pos + i]),
        text[pos + n] == ' ',
    ensures
        identifier_end(text, pos + k) == pos + n,
    decreases n - k,
{
    if k < n {
        assert(is_identifier_part(text[pos + k]));
        lemma_identifier_run(text, pos, n, k + 1);
    }
}

/// Where the text reads a run of digits and a space, the digits end at
/// the space.
proof fn lemma_digit_run(text: Seq<char>, pos: int, n: int, k: int)
    requires
        0 <= pos,
        0 <= k <= n,
        pos + n < text.len(),
        forall|i: int| 0 <= i < n ==> is_digit(#[trigger] text[pos + i]),
        text[pos + n] == ' ',
    ensures
        digits_end(text, pos + k) == pos + n,
    decreases n - k,
{
    if k < n {
        assert(is_digit(text[pos + k]));
        lemma_digit_run(text, pos, n, k + 1);
    }
}

/// Where the text reads characters other than the double quote and then a
/// double quote, the string ends at that quote, and reading it keeps the
/// cursor in the text.
proof fn lemma_string_run(text: Seq<char>, c: Cursor, n: int)
    requires
        cursor_ok(text, c),
        c.column <= c.pos,
        0 <= n,
        c.pos + n < text.len(),
        forall|i: int| 0 <= i < n ==> #[trigger] text[c.pos + i] != '"',
        text[c.pos + n] == '"',
    ensures
        quote_at(text, c.pos) == c.pos + n,
        skip_string(text, c).pos == c.pos + n + 1,
        cursor_ok(text, skip_string(text, c)),
        skip_string(text, c).column <= skip_string(text, c).pos,
    decreases n,
{
    if n > 0 {
        assert(text[c.pos + 0] != '"');
        let next = step(text, c);
        assert forall|i: int| 0 <= i < n - 1 implies #[trigger] text[next.pos + i] != '"' by {
            assert(text[c.pos + (i + 1)] != '"');
        }
        lemma_string_run(text, next, n - 1);
    }
}

/// Where the text reads a spelling, the part of the text that it reads is
/// the spelling.
proof fn lemma_reads_subrange(text: Seq<char>, pos: int, spelling: Seq<char>)
    requires
        reads(text, pos, spelling),
    ensures
        text.subrange(pos, pos + spelling.len()) == spelling,
{
    assert forall|i: int| 0 <= i < spelling.len() implies text.subrange(
        pos,
        pos + spelling.len(),
    )[i] == spelling[i] by {
        assert(text[pos + i] == spelling[i]);
    }
    assert(text.subrange(pos, pos + spelling.len()) =~= spelling);
}

/// What reading one token gave is the token, and the cursor stands after
/// the token's spelling.
pub open spec fn scans(text: Seq<char>, c: Cursor, token: TokenView) -> bool {
    match next_token(text, c) {
        Scan::Token { token: found, span, next } => {
            &&& found == token
            &&& next.pos == c.pos + lexeme(token).len()
            &&& cursor_ok(text, next)
            &&& next.column <= next.pos
        },
        Scan::Failure { diagnostic, at } => false,
    }
}

/// At a character that is no white space and begins no comment, nothing
/// is skipped.
proof fn lemma_nothing_to_skip(text: Seq<char>, c: Cursor)
    requires
        cursor_ok(text, c),
        c.pos < text.len(),
        !is_whitespace(text[c.pos]),
        text[c.pos] == '/' ==> c.pos + 1 < text.len() && text[c.pos + 1] == ' ',
    ensures
        skip_empty(text, c) == c,
{
}

/// Reading a name where the text spells it gives the name.
proof fn lemma_scan_name(text: Seq<char>, c: Cursor, name: Seq<char>)
    requires
        cursor_ok(text, c),
        c.column <= c.pos,
        is_name(name),
        reads(text, c.pos, name),
    ensures
        scans(text, c, TokenView::Identifier(name)),
{
    assert(text[c.pos + 0] == name[0]);
    lemma_nothing_to_skip(text, c);
    assert forall|i: int| 0 <= i < name.len() implies is_identifier_part(
        #[trigger] text[c.pos + i],
    ) by {
        assert(is_identifier_part(name[i]));
    }
    lemma_identifier_run(text, c.pos, name.len() as int, 0);
    lemma_reads_subrange(text, c.pos, name);
}

/// Reading a truth value where the text spells it gives the truth value.
proof fn lemma_scan_truth(text: Seq<char>, c: Cursor, b: bool)
    requires
        cursor_ok(text, c),
        c.column <= c.pos,
        reads(text, c.pos, lexeme(TokenView::BooleanLiteral(b))),
    ensures
        scans(text, c, TokenView::BooleanLiteral(b)),
{
    lemma_symbols();
    let word = lexeme(TokenView::BooleanLiteral(b));
    assert(text[c.pos + 0] == word[0]);
    lemma_nothing_to_skip(text, c);
    assert forall|i: int| 0 <= i < word.len() implies is_identifier_part(
        #[trigger] text[c.pos + i],
    ) by {
        assert(text[c.pos + i] == word[i]);
    }
    lemma_identifier_run(text, c.pos, word.len() as int, 0);
    lemma_reads_subrange(text, c.pos, word);
}

/// Reading a number where the text spells it gives the number.
proof fn lemma_scan_number(text: Seq<char>, c: Cursor, n: i32)
    requires
        cursor_ok(text, c),
        c.column <= c.pos,
        n >= 0,
        reads(text, c.pos, decimal_nat(n as nat)),
    ensures
        scans(text, c, TokenView::NumericLiteral(n)),
{
    assert(decimal(n as int) == decimal_nat(n as nat));
    let digits = decimal_nat(n as nat);
    lemma_decimal_nat(n as nat);
    assert(text[c.pos + 0] == digits[0]);
    assert(is_digit(digits[0]));
    lemma_nothing_to_skip(text, c);
    assert forall|i: int| 0 <= i < digits.len() implies is_digit(#[trigger] text[c.pos + i]) by {
        assert(is_digit(digits[i]));
    }
    lemma_digit_run(text, c.pos, digits.len() as int, 0);
    lemma_reads_subrange(text, c.pos, digits);
}

/// Reading a string where the text spells it gives the string.
proof fn lemma_scan_string(text: Seq<char>, c: Cursor, content: Seq<char>)
    requires
        cursor_ok(text, c),
        c.column <= c.pos,
        lexable(TokenView::StringLiteral(content)),
        reads(text, c.pos, lexeme(TokenView::StringLiteral(content))),
    ensures
        scans(text, c, TokenView::StringLiteral(content)),
{
    lemma_symbols();
    let spelling = lexeme(TokenView::StringLiteral(content));
    assert(spelling.len() == content.len() + 2);
    assert(text[c.pos + 0] == spelling[0]);
    lemma_nothing_to_skip(text, c);
    let inside = step(text, c);
    assert forall|i: int| 0 <= i < content.len() implies #[trigger] text[inside.pos + i]
        != '"' by {
        assert(text[c.pos + (i + 1)] == spelling[i + 1]);
        assert(spelling[i + 1] == content[i]);
    }
    let last = content.len() as int + 1;
    assert(text[c.pos + last] == spelling[last]);
    lemma_string_run(text, inside, content.len() as int);
    assert(text.subrange(c.pos + 1, c.pos + 1 + content.len()) =~= content) by {
        assert forall|i: int| 0 <= i < content.len() implies text.subrange(
            c.pos + 1,
            c.pos + 1 + content.len(),
        )[i] == content[i] by {
            assert(text[c.pos + (i + 1)] == spelling[i + 1]);
        }
    }
}

/// Whether the token is spelled by operator characters or punctuation.
pub open spec fn is_sign(token: TokenView) -> bool {
    match token {
        TokenView::Identifier(_) => false,
        TokenView::NumericLiteral(_) => false,
        TokenView::StringLiteral(_) => false,
        TokenView::BooleanLiteral(_) => false,
        TokenView::EOF => false,
        _ => true,
    }
}

/// Reading an operator or a punctuation mark where the text spells it
/// gives that token.
proof fn lemma_scan_sign(text: Seq<char>, c: Cursor, token: TokenView)
    requires
        cursor_ok(text, c),
        c.column <= c.pos,
        is_sign(token),
        reads(text, c.pos, lexeme(token)),
    ensures
        scans(text, c, token),
{
    lemma_symbols();
    let spelling = lexeme(token);
    assert(spelling.len() == 1 || spelling.len() == 2);
    assert(text[c.pos + 0] == spelling[0]);
    if spelling.len() == 2 {
        assert(text[c.pos + 1] == spelling[1]);
    }
    lemma_nothing_to_skip(text, c);
    let first = text[c.pos];
    assert(!is_identifier_start(first));
    assert(!is_digit(first));
    assert(first != '"');
    assert(punctuation(text, c, first) == Some((token, spelling.len() as int)));
}

/// Reading a token where the text spells it gives the token.
pub proof fn lemma_scan(text: Seq<char>, c: Cursor, token: TokenView)
    requires
        cursor_ok(text, c),
        c.column <= c.pos,
        lexable(token),
        reads(text, c.pos, lexeme(token)),
    ensures
        scans(text, c, token),
{
    match token {
        TokenView::Identifier(name) => {
            lemma_scan_name(text, c, name);
        },
        TokenView::NumericLiteral(n) => {
            assert(decimal(n as int) == decimal_nat(n as nat));
            lemma_scan_number(text, c, n);
        },
        TokenView::StringLiteral(content) => {
            lemma_scan_string(text, c, content);
        },
        TokenView::BooleanLiteral(b) => {
            lemma_scan_truth(text, c, b);
        },
        _ => {
            lemma_scan_sign(text, c, token);
        },
    }
}

/// What tokenizing gave are the tokens read before, the given ones, and
/// the end marker.
pub open spec fn lexes(r: Lexed, read: Seq<WithSpan<TokenView>>, tokens: Seq<TokenView>) -> bool {
    match r {
        Lexed::Tokens { tokens: found, end } => nodes(found) == nodes(read) + tokens.push(
            TokenView::EOF,
        ),
        Lexed::Failure { diagnostic, at } => false,
    }
}

/// Tokenizing from a cursor after which the text spells a token sequence,
/// with or without a space before it, gives the tokens.
proof fn lemma_lex_rendered(
    text: Seq<char>,
    c: Cursor,
    tokens: Seq<TokenView>,
    read: Seq<WithSpan<TokenView>>,
    gap: bool,
)
    requires
        cursor_ok(text, c),
        c.column <= c.pos,
        all_lexable(tokens),
        text.skip(c.pos) == if gap {
            " "@ + render(tokens)
        } else {
            render(tokens)
        },
    ensures
        lexes(tokens_from(text, c, read), read, tokens),
    decreases tokens.len(),
{
    lemma_symbols();
    let rest_text = text.skip(c.pos);
    let at = if gap {
        step(text, c)
    } else {
        c
    };
    if gap {
        assert(rest_text[0] == ' ');
        assert(text[c.pos] == rest_text[0]);
        assert(is_whitespace(' '));
        assert(text.skip(at.pos) =~= rest_text.skip(1));
        assert(rest_text.skip(1) =~= render(tokens));
        assert(skip_empty(text, c) == skip_empty(text, at));
    }
    assert(text.skip(at.pos) == render(tokens));
    assert(next_token(text, c) == next_token(text, at));
    if tokens.len() == 0 {
        lemma_render_empty();
        assert(tokens =~= Seq::<TokenView>::empty());
        assert(text.skip(at.pos).len() == 0);
        assert(at.pos == text.len());
        assert(skip_empty(text, at) == at);
        let found = read.push(
            WithSpan {
                node: TokenView::EOF,
                span: crate::common::ast::Span {
                    line: at.line as usize,
                    column: (at.column + 1) as usize,
                },
            },
        );
        assert(nodes(found) =~= nodes(read) + tokens.push(TokenView::EOF));
    } else {
        let token = tokens[0];
        let spelling = lexeme(token);
        let remaining = tokens.skip(1);
        let here = text.skip(at.pos);
        lemma_render_first(tokens);
        assert(here == spelling + " "@ + render(remaining));
        assert(lexable(token));
        assert(reads(text, at.pos, spelling)) by {
            assert(here.len() == text.len() - at.pos);
            assert forall|i: int| 0 <= i < spelling.len() implies #[trigger] text[at.pos + i]
                == spelling[i] by {
                assert(here[i] == spelling[i]);
                assert(text[at.pos + i] == here[i]);
            }
            assert(here[spelling.len() as int] == ' ');
            assert(text[at.pos + spelling.len()] == here[spelling.len() as int]);
        }
        lemma_scan(text, at, token);
        let span = next_token(text, at)->Token_span;
        let next = next_token(text, at)->Token_next;
        assert(text.skip(next.pos) =~= " "@ + render(remaining)) by {
            assert(text.skip(next.pos) =~= here.skip(spelling.len() as int));
        }
        assert(all_lexable(remaining)) by {
            assert forall|i: int| 0 <= i < remaining.len() implies lexable(
                #[trigger] remaining[i],
            ) by {
                assert(remaining[i] == tokens[i + 1]);
            }
        }
        let more = read.push(WithSpan { node: token, span });
        lemma_lex_rendered(text, next, remaining, more, true);
        lemma_next_token(text, c);
        assert(nodes(more) + remaining.push(TokenView::EOF) =~= nodes(read) + tokens.push(
            TokenView::EOF,
        )) by {
            assert(nodes(more) =~= nodes(read).push(token));
            assert(tokens =~= seq![token] + remaining);
        }
    }
}

/// Tokenizing the text that spells a token sequence gives the tokens.
///
/// Let every token of a sequence be lexable, and let the text that spells
/// the sequence be short enough for its positions to be counted. Then the
/// tokenizer accepts the text, and the tokens that it gives are those of
/// the sequence, and the end marker.
pub proof fn law_tokens_round_trip(tokens: Seq<TokenView>)
    requires
        all_lexable(tokens),
        render(tokens).len() + 2 <= usize::MAX,
    ensures
        lexes(lex(render(tokens), start()), Seq::empty(), tokens),
{
    let text = render(tokens);
    assert(text.skip(0) =~= text);
    lemma_lex_rendered(text, start(), tokens, Seq::empty(), false);
}

} // verus!
