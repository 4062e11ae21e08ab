use super::tokens::{keyword_token, TokenType, TokenView};
use vstd::prelude::*;
use vstd::utf8::{decode_utf8, pop_first_scalar, valid_utf8};

verus! {

/// How lexing can fail. Only literals fail: any other malformed input becomes
/// an `Illegal` token.
#[derive(Debug, Clone, Copy, PartialEq, Eq, Structural)]
pub enum LexerError {
    /// The input ended, or held a zero byte, inside an open quote.
    UnterminatedStringLiteral,
    /// The text of a number literal is not a run of digits.
    InvalidNumberLiteral,
    /// The digits of a number literal stand for a value that does not fit.
    TooLargeInteger,
}

/// The byte at `i`, and the end sentinel 0 outside the buffer.
pub open spec fn byte_at(src: Seq<u8>, i: int) -> u8 {
    if 0 <= i < src.len() {
        src[i]
    } else {
        0
    }
}

pub open spec fn is_letter(b: u8) -> bool {
    ('a' as u8 <= b && b <= 'z' as u8) || ('A' as u8 <= b && b <= 'Z' as u8)
}

pub open spec fn is_digit(b: u8) -> bool {
    '0' as u8 <= b && b <= '9' as u8
}

/// The classes of bytes that the lexer reads in runs.
#[derive(Debug, Clone, Copy, PartialEq, Eq, Structural)]
pub enum ByteClass {
    /// Space and tab: the whitespace between the tokens of a line.
    Blank,
    /// Letters, digits and the underscore: the rest of a word.
    Word,
    /// Decimal digits.
    Digit,
    /// Whatever a line comment may hold: all but the line break and the end.
    Comment,
    /// Whatever a quoted literal may hold: all but the quote and the end.
    Quoted,
}

impl ByteClass {
    pub open spec fn holds(self, b: u8) -> bool {
        match self {
            ByteClass::Blank => b == ' ' as u8 || b == '\t' as u8,
            ByteClass::Word => is_letter(b) || is_digit(b) || b == '_' as u8,
            ByteClass::Digit => is_digit(b),
            ByteClass::Comment => b != '\n' as u8 && b != 0,
            ByteClass::Quoted => b != '"' as u8 && b != 0,
        }
    }
}

/// Where the longest run of bytes of one class that starts at `from` ends.
pub open spec fn run_end(src: Seq<u8>, from: int, class: ByteClass) -> int
    decreases src.len() - from,
{
    if 0 <= from < src.len() && class.holds(src[from]) {
        run_end(src, from + 1, class)
    } else {
        from
    }
}

/// Where the next token starts: behind the blanks at `pos` and, if a line
/// comment follows them, behind that comment.
pub open spec fn token_start(src: Seq<u8>, pos: int) -> int {
    let p = run_end(src, pos, ByteClass::Blank);
    if byte_at(src, p) == '/' as u8 && byte_at(src, p + 1) == '/' as u8 {
        run_end(src, p, ByteClass::Comment)
    } else {
        p
    }
}

/// The characters that the bytes from `start` up to `end` encode.
pub open spec fn text_between(src: Seq<u8>, start: int, end: int) -> Seq<char> {
    decode_utf8(src.subrange(start, end))
}

/// The token of a character that is a token by itself, if `b` is one.
pub open spec fn punctuation(b: u8) -> Option<TokenType> {
    if b == '+' as u8 {
        Some(TokenType::Plus)
    } else if b == '-' as u8 {
        Some(TokenType::Minus)
    } else if b == '*' as u8 {
        Some(TokenType::Asterisk)
    } else if b == '/' as u8 {
        Some(TokenType::FSlash)
    } else if b == '(' as u8 {
        Some(TokenType::LParenthasis)
    } else if b == ')' as u8 {
        Some(TokenType::RParenthasis)
    } else if b == '[' as u8 {
        Some(TokenType::LSquareBracket)
    } else if b == ']' as u8 {
        Some(TokenType::RSquareBracket)
    } else if b == '{' as u8 {
        Some(TokenType::LSquirly)
    } else if b == '}' as u8 {
        Some(TokenType::RSquirly)
    } else if b == ',' as u8 {
        Some(TokenType::Comma)
    } else if b == ':' as u8 {
        Some(TokenType::Colon)
    } else if b == '\n' as u8 {
        Some(TokenType::Newline)
    } else {
        None
    }
}

/// The two tokens that a character can start: one alone, one with a `=` behind
/// it.
pub struct Comparison {
    pub alone: TokenType,
    pub with_equals: TokenType,
}

/// The tokens of a character that is told apart by the character behind it, if
/// `b` is one. A `!` alone is no token.
pub open spec fn comparison(b: u8) -> Option<Comparison> {
    if b == '>' as u8 {
        Some(Comparison { alone: TokenType::GThan, with_equals: TokenType::GThanOrEqual })
    } else if b == '<' as u8 {
        Some(Comparison { alone: TokenType::LThan, with_equals: TokenType::LThanOrEqual })
    } else if b == '=' as u8 {
        Some(Comparison { alone: TokenType::Equals, with_equals: TokenType::DoubleEquals })
    } else if b == '!' as u8 {
        Some(Comparison { alone: TokenType::Illegal, with_equals: TokenType::NotEqual })
    } else {
        None
    }
}

/// One step of the lexer: the token read, or the failure, and where the cursor
/// stands afterwards.
pub struct Scan {
    pub token: Result<TokenView, LexerError>,
    pub next: int,
}

/// The token that starts at `p`, where no blank and no comment starts.
pub open spec fn scan_at(src: Seq<u8>, p: int) -> Scan {
    let b = byte_at(src, p);
    if b == 0 {
        Scan {
            token: Ok(TokenView::plain(TokenType::Eof)),
            next: if p < src.len() {
                p + 1
            } else {
                p
            },
        }
    } else if punctuation(b) is Some {
        Scan { token: Ok(TokenView::plain(punctuation(b)->0)), next: p + 1 }
    } else if comparison(b) is Some {
        if byte_at(src, p + 1) == '=' as u8 {
            Scan { token: Ok(TokenView::plain(comparison(b)->0.with_equals)), next: p + 2 }
        } else {
            Scan { token: Ok(TokenView::plain(comparison(b)->0.alone)), next: p + 1 }
        }
    } else if is_letter(b) {
        let end = run_end(src, p, ByteClass::Word);
        Scan { token: Ok(keyword_token(text_between(src, p, end))), next: end }
    } else if is_digit(b) {
        let end = run_end(src, p, ByteClass::Digit);
        Scan {
            token: Ok(
                TokenView { kind: TokenType::NumberLiteral, text: text_between(src, p, end) },
            ),
            next: end,
        }
    } else if b == '"' as u8 {
        let end = run_end(src, p + 1, ByteClass::Quoted);
        if byte_at(src, end) == '"' as u8 {
            Scan {
                token: Ok(
                    TokenView {
                        kind: TokenType::StringLiteral,
                        text: text_between(src, p + 1, end),
                    },
                ),
                next: end + 1,
            }
        } else {
            Scan { token: Err(LexerError::UnterminatedStringLiteral), next: end }
        }
    } else {
        Scan { token: Ok(TokenView::plain(TokenType::Illegal)), next: p + 1 }
    }
}

/// What the lexer does with its cursor at `pos`: it passes blanks and a line
/// comment, and reads one token.
pub open spec fn scan(src: Seq<u8>, pos: int) -> Scan {
    scan_at(src, token_start(src, pos))
}

/// A run ends at or behind its start and inside the buffer, holds only bytes of
/// its class, and is followed by a byte of another class or by the end: it is
/// the longest such run.
pub proof fn lemma_run_end(src: Seq<u8>, from: int, class: ByteClass)
    requires
        0 <= from <= src.len(),
    ensures
        from <= run_end(src, from, class) <= src.len(),
        forall|i: int| from <= i < run_end(src, from, class) ==> class.holds(#[trigger] src[i]),
        run_end(src, from, class) < src.len() ==> !class.holds(
            src[run_end(src, from, class)],
        ),
    decreases src.len() - from,
{
    if from < src.len() && class.holds(src[from]) {
        lemma_run_end(src, from + 1, class);
    }
}

/// A run that has reached `mid` goes on from there.
pub proof fn lemma_run_end_resume(src: Seq<u8>, from: int, mid: int, class: ByteClass)
    requires
        0 <= from <= mid <= src.len(),
        forall|i: int| from <= i < mid ==> class.holds(#[trigger] src[i]),
    ensures
        run_end(src, from, class) == run_end(src, mid, class),
    decreases mid - from,
{
    if from < mid {
        lemma_run_end_resume(src, from + 1, mid, class);
    }
}

/// The cursor never moves back and never leaves the buffer, and a token that
/// is not `Eof` takes at least one byte.
pub proof fn lemma_scan_advances(src: Seq<u8>, pos: int)
    requires
        0 <= pos <= src.len(),
    ensures
        pos <= scan(src, pos).next <= src.len(),
        scan(src, pos).token != Ok::<TokenView, LexerError>(TokenView::plain(TokenType::Eof))
            && scan(src, pos).token is Ok ==> pos < scan(src, pos).next,
        scan(src, pos).next == pos ==> pos == src.len() || scan(src, pos).token is Err,
{
    lemma_run_end(src, pos, ByteClass::Blank);
    let p = run_end(src, pos, ByteClass::Blank);
    lemma_run_end(src, p, ByteClass::Comment);
    let s = token_start(src, pos);
    lemma_run_end(src, s, ByteClass::Word);
    lemma_run_end(src, s, ByteClass::Digit);
    if s < src.len() {
        lemma_run_end(src, s + 1, ByteClass::Quoted);
    }
    if is_letter(byte_at(src, s)) {
        assert(ByteClass::Word.holds(src[s]));
        lemma_keyword_is_not_eof(text_between(src, s, run_end(src, s, ByteClass::Word)));
    }
    if is_digit(byte_at(src, s)) {
        assert(ByteClass::Digit.holds(src[s]));
    }
}

/// No word is read as the end of input.
proof fn lemma_keyword_is_not_eof(word: Seq<char>)
    ensures
        keyword_token(word).kind != TokenType::Eof,
{
}

/// Bytes below 128 are characters by themselves: a text of such bytes is
/// well-formed, and it holds the characters with the codes of its bytes.
pub proof fn lemma_ascii_text(bytes: Seq<u8>)
    requires
        forall|i: int| 0 <= i < bytes.len() ==> #[trigger] bytes[i] < 128,
    ensures
        valid_utf8(bytes),
        decode_utf8(bytes) == Seq::new(bytes.len(), |i: int| bytes[i] as char),
    decreases bytes.len(),
{
    if bytes.len() > 0 {
        let first = bytes[0];
        let rest = pop_first_scalar(bytes);
        assert(first < 128);
        assert(first & 0x7F == first) by (bit_vector)
            requires
                first < 128,
        ;
        assert(rest =~= bytes.subrange(1, bytes.len() as int));
        assert forall|i: int| 0 <= i < rest.len() implies #[trigger] rest[i] < 128 by {
            assert(rest[i] == bytes[i + 1]);
        }
        lemma_ascii_text(rest);
        assert(decode_utf8(bytes) =~= Seq::new(bytes.len(), |i: int| bytes[i] as char));
    } else {
        assert(decode_utf8(bytes) =~= Seq::new(bytes.len(), |i: int| bytes[i] as char));
    }
}

/// A word is read as a whole: where a letter starts a token, the token is what
/// the keyword table makes of the longest run of letters, digits and
/// underscores from there, character for character, and the lexer stops right
/// behind that run. So a keyword is found only where it is the whole word, and
/// never at the beginning of a longer one.
pub proof fn lemma_word_is_whole(src: Seq<u8>, pos: int)
    requires
        0 <= pos <= src.len(),
        is_letter(byte_at(src, token_start(src, pos))),
    ensures
        ({
            let start = token_start(src, pos);
            let end = scan(src, pos).next;
            &&& scan(src, pos).token == Ok::<TokenView, LexerError>(
                keyword_token(text_between(src, start, end)),
            )
            &&& start < end <= src.len()
            &&& forall|i: int| start <= i < end ==> ByteClass::Word.holds(#[trigger] src[i])
            &&& !ByteClass::Word.holds(byte_at(src, end))
            &&& text_between(src, start, end) == Seq::new(
                (end - start) as nat,
                |i: int| src[start + i] as char,
            )
        }),
{
    lemma_run_end(src, pos, ByteClass::Blank);
    lemma_run_end(src, run_end(src, pos, ByteClass::Blank), ByteClass::Comment);
    let start = token_start(src, pos);
    let end = run_end(src, start, ByteClass::Word);
    lemma_run_end(src, start, ByteClass::Word);
    assert(ByteClass::Word.holds(src[start]));
    let word = src.subrange(start, end);
    assert forall|i: int| 0 <= i < word.len() implies #[trigger] word[i] < 128 by {
        assert(ByteClass::Word.holds(src[start + i]));
    }
    lemma_ascii_text(word);
    assert(decode_utf8(word) =~= Seq::new((end - start) as nat, |i: int| src[start + i] as char));
}

/// A line comment is no token: where two slashes follow the blanks under the
/// cursor, the lexer passes all up to the end of the line, and the token is
/// the line break there, or `Eof` if the input ends first.
pub proof fn lemma_comment_is_no_token(src: Seq<u8>, pos: int)
    requires
        0 <= pos <= src.len(),
        byte_at(src, run_end(src, pos, ByteClass::Blank)) == '/' as u8,
        byte_at(src, run_end(src, pos, ByteClass::Blank) + 1) == '/' as u8,
    ensures
        ({
            let slashes = run_end(src, pos, ByteClass::Blank);
            let end = run_end(src, slashes, ByteClass::Comment);
            &&& slashes + 2 <= end <= src.len()
            &&& forall|i: int|
                slashes <= i < end ==> #[trigger] src[i] != '\n' as u8 && src[i] != 0
            &&& scan(src, pos).token == Ok::<TokenView, LexerError>(
                TokenView::plain(
                    if byte_at(src, end) == '\n' as u8 {
                        TokenType::Newline
                    } else {
                        TokenType::Eof
                    },
                ),
            )
        }),
{
    lemma_run_end(src, pos, ByteClass::Blank);
    let slashes = run_end(src, pos, ByteClass::Blank);
    lemma_run_end(src, slashes, ByteClass::Comment);
    lemma_run_end(src, slashes + 1, ByteClass::Comment);
    lemma_run_end(src, slashes + 2, ByteClass::Comment);
    assert(ByteClass::Comment.holds(src[slashes]));
    assert(ByteClass::Comment.holds(src[slashes + 1]));
}

/// Where the input ends, the lexer yields `Eof` and stays.
pub proof fn lemma_end_is_eof(src: Seq<u8>)
    ensures
        scan(src, src.len() as int) == (Scan {
            token: Ok(TokenView::plain(TokenType::Eof)),
            next: src.len() as int,
        }),
{
}

} // verus!
