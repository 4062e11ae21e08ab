use super::scanning::{
    byte_at, comparison, is_digit, is_letter, lemma_ascii_text, lemma_run_end,
    lemma_run_end_resume, lemma_word_is_whole, punctuation, run_end, scan, text_between,
    token_start, ByteClass, LexerError, Scan,
};
use super::tokens::{keyword_kind, keyword_token, TokenType, TokenView};
use vstd::prelude::*;

verus! {

/// Whether the bytes from `from` up to `to` are spaces.
pub open spec fn spaces(src: Seq<u8>, from: int, to: int) -> bool {
    &&& 0 <= from <= to <= src.len()
    &&& forall|i: int| from <= i < to ==> #[trigger] src[i] == ' ' as u8
}

/// Whether the characters of `text` stand in `src` from the offset `at` on,
/// one byte for each.
pub open spec fn placed(src: Seq<u8>, at: int, text: Seq<char>) -> bool {
    &&& 0 <= at
    &&& at + text.len() <= src.len()
    &&& forall|k: int| 0 <= k < text.len() ==> #[trigger] src[at + k] == text[k] as u8
}

/// A text stands in a place part by part.
pub proof fn lemma_placed_parts(src: Seq<u8>, at: int, a: Seq<char>, b: Seq<char>)
    requires
        placed(src, at, a + b),
    ensures
        placed(src, at, a),
        placed(src, at + a.len(), b),
{
    assert forall|k: int| 0 <= k < a.len() implies #[trigger] src[at + k] == a[k] as u8 by {
        assert((a + b)[k] == a[k]);
    }
    assert forall|k: int| 0 <= k < b.len() implies #[trigger] src[at + a.len() + k] == b[k] as u8 by {
        assert((a + b)[a.len() + k] == b[k]);
        assert(src[at + (a.len() + k)] == (a + b)[a.len() + k] as u8);
    }
}

/// The lexer passes the spaces before a token: where spaces stand from `pos`
/// up to `start`, and at `start` neither a space nor a tab nor a comment, the
/// token starts at `start`.
pub proof fn lemma_token_starts_behind_spaces(src: Seq<u8>, pos: int, start: int)
    requires
        spaces(src, pos, start),
        !ByteClass::Blank.holds(byte_at(src, start)),
        !(byte_at(src, start) == '/' as u8 && byte_at(src, start + 1) == '/' as u8),
    ensures
        token_start(src, pos) == start,
{
    assert forall|i: int| pos <= i < start implies ByteClass::Blank.holds(#[trigger] src[i]) by {
        assert(src[i] == ' ' as u8);
    }
    lemma_run_end_resume(src, pos, start, ByteClass::Blank);
}

/// A character that is a token by itself is read as that token.
pub proof fn lemma_scan_punctuation(src: Seq<u8>, pos: int, start: int)
    requires
        spaces(src, pos, start),
        start < src.len(),
        punctuation(src[start]) is Some,
        !(src[start] == '/' as u8 && byte_at(src, start + 1) == '/' as u8),
    ensures
        scan(src, pos) == (Scan {
            token: Ok(TokenView::plain(punctuation(src[start])->0)),
            next: start + 1,
        }),
{
    lemma_token_starts_behind_spaces(src, pos, start);
}

/// A comparison sign is read alone, or with the `=` behind it.
pub proof fn lemma_scan_comparison(src: Seq<u8>, pos: int, start: int)
    requires
        spaces(src, pos, start),
        start < src.len(),
        comparison(src[start]) is Some,
    ensures
        scan(src, pos) == if byte_at(src, start + 1) == '=' as u8 {
            Scan {
                token: Ok(TokenView::plain(comparison(src[start])->0.with_equals)),
                next: start + 2,
            }
        } else {
            Scan { token: Ok(TokenView::plain(comparison(src[start])->0.alone)), next: start + 1 }
        },
{
    lemma_token_starts_behind_spaces(src, pos, start);
}

/// A word is read as what the keyword table makes of it: where the characters
/// of `word`, a letter first and then letters, digits and underscores, stand
/// behind the spaces at `pos`, and no such character behind them.
pub proof fn lemma_scan_word(src: Seq<u8>, pos: int, start: int, word: Seq<char>)
    requires
        spaces(src, pos, start),
        placed(src, start, word),
        word.len() >= 1,
        is_letter(word[0] as u8),
        forall|k: int| 0 <= k < word.len() ==> ByteClass::Word.holds(#[trigger] word[k] as u8),
        forall|k: int| 0 <= k < word.len() ==> (#[trigger] word[k] as u8) as char == word[k],
        !ByteClass::Word.holds(byte_at(src, start + word.len())),
    ensures
        scan(src, pos) == (Scan { token: Ok(keyword_token(word)), next: start + word.len() }),
{
    let end = start + word.len();
    assert(src[start + 0] == word[0] as u8);
    lemma_token_starts_behind_spaces(src, pos, start);
    assert forall|i: int| start <= i < end implies ByteClass::Word.holds(#[trigger] src[i]) by {
        assert(src[start + (i - start)] == word[i - start] as u8);
    }
    lemma_run_end_resume(src, start, end, ByteClass::Word);
    assert(run_end(src, end, ByteClass::Word) == end);
    let bytes = src.subrange(start, end);
    assert forall|i: int| 0 <= i < bytes.len() implies #[trigger] bytes[i] < 128 by {
        assert(ByteClass::Word.holds(src[start + i]));
    }
    lemma_ascii_text(bytes);
    assert(text_between(src, start, end) =~= word) by {
        assert forall|k: int| 0 <= k < word.len() implies text_between(src, start, end)[k]
            == word[k] by {
            assert(bytes[k] == src[start + k]);
            assert(src[start + k] == word[k] as u8);
        }
    }
}

/// A run of digits is read as a number literal over these digits.
pub proof fn lemma_scan_number(src: Seq<u8>, pos: int, start: int, digits: Seq<char>)
    requires
        spaces(src, pos, start),
        placed(src, start, digits),
        digits.len() >= 1,
        forall|k: int| 0 <= k < digits.len() ==> is_digit(#[trigger] digits[k] as u8),
        forall|k: int| 0 <= k < digits.len() ==> (#[trigger] digits[k] as u8) as char == digits[k],
        !is_digit(byte_at(src, start + digits.len())),
    ensures
        scan(src, pos) == (Scan {
            token: Ok(TokenView { kind: TokenType::NumberLiteral, text: digits }),
            next: start + digits.len(),
        }),
{
    let end = start + digits.len();
    assert(src[start + 0] == digits[0] as u8);
    lemma_token_starts_behind_spaces(src, pos, start);
    assert forall|i: int| start <= i < end implies ByteClass::Digit.holds(#[trigger] src[i]) by {
        assert(src[start + (i - start)] == digits[i - start] as u8);
    }
    lemma_run_end_resume(src, start, end, ByteClass::Digit);
    assert(run_end(src, end, ByteClass::Digit) == end);
    let bytes = src.subrange(start, end);
    assert forall|i: int| 0 <= i < bytes.len() implies #[trigger] bytes[i] < 128 by {
        assert(ByteClass::Digit.holds(src[start + i]));
    }
    lemma_ascii_text(bytes);
    assert(text_between(src, start, end) =~= digits) by {
        assert forall|k: int| 0 <= k < digits.len() implies text_between(src, start, end)[k]
            == digits[k] by {
            assert(bytes[k] == src[start + k]);
            assert(src[start + k] == digits[k] as u8);
        }
    }
}

/// Whether a character is a letter, a digit or an underscore, and one byte
/// long.
pub open spec fn is_word_char(c: char) -> bool {
    ByteClass::Word.holds(c as u8) && (c as u8) as char == c
}

/// Whether a token is a name as the lexer reads one: a word that starts with a
/// letter and is no keyword.
pub open spec fn is_name(token: TokenView) -> bool {
    &&& token.kind == TokenType::Identifier
    &&& token.text.len() >= 1
    &&& is_letter(token.text[0] as u8)
    &&& forall|k: int| 0 <= k < token.text.len() ==> is_word_char(#[trigger] token.text[k])
    &&& keyword_kind(token.text) == TokenType::Identifier
}

/// The lexer yields names only: where it reads an `Identifier`, the text of the
/// token is a word that starts with a letter and is no keyword.
pub proof fn lemma_identifier_is_a_name(src: Seq<u8>, pos: int)
    requires
        0 <= pos <= src.len(),
        scan(src, pos).token is Ok,
        scan(src, pos).token->Ok_0.kind == TokenType::Identifier,
    ensures
        is_name(scan(src, pos).token->Ok_0),
{
    let start = token_start(src, pos);
    let b = byte_at(src, start);
    assert(is_letter(b)) by {
        if b != 0 && punctuation(b) is None && comparison(b) is None && !is_letter(b) {
            assert(scan(src, pos).token->Ok_0.kind != TokenType::Identifier);
        }
    }
    lemma_word_is_whole(src, pos);
    let end = scan(src, pos).next;
    let text = text_between(src, start, end);
    assert forall|k: int| 0 <= k < text.len() implies is_word_char(#[trigger] text[k]) by {
        assert(ByteClass::Word.holds(src[start + k]));
    }
    assert(ByteClass::Word.holds(src[start + 0]));
}

/// The lexer yields numbers that are runs of digits: where it reads a
/// `NumberLiteral`, the text of the token is at least one digit long and holds
/// digits only.
pub proof fn lemma_number_is_digits(src: Seq<u8>, pos: int)
    requires
        0 <= pos <= src.len(),
        scan(src, pos).token is Ok,
        scan(src, pos).token->Ok_0.kind == TokenType::NumberLiteral,
    ensures
        ({
            let text = scan(src, pos).token->Ok_0.text;
            &&& text.len() >= 1
            &&& forall|k: int|
                0 <= k < text.len() ==> is_digit(#[trigger] text[k] as u8) && (text[k] as u8) as char
                    == text[k]
        }),
{
    lemma_run_end(src, pos, ByteClass::Blank);
    lemma_run_end(src, run_end(src, pos, ByteClass::Blank), ByteClass::Comment);
    let start = token_start(src, pos);
    let b = byte_at(src, start);
    if is_letter(b) {
        lemma_keyword_is_a_word(text_between(src, start, run_end(src, start, ByteClass::Word)));
    }
    assert(is_digit(b));
    let end = run_end(src, start, ByteClass::Digit);
    lemma_run_end(src, start, ByteClass::Digit);
    assert(ByteClass::Digit.holds(src[start]));
    let bytes = src.subrange(start, end);
    assert forall|i: int| 0 <= i < bytes.len() implies #[trigger] bytes[i] < 128 by {
        assert(ByteClass::Digit.holds(src[start + i]));
    }
    lemma_ascii_text(bytes);
    let text = text_between(src, start, end);
    assert forall|k: int| 0 <= k < text.len() implies is_digit(#[trigger] text[k] as u8) && (
    text[k] as u8) as char == text[k] by {
        assert(ByteClass::Digit.holds(src[start + k]));
        assert(bytes[k] == src[start + k]);
    }
}

/// The lexer fails in one case only: a quote opens a literal, and the input
/// ends, or holds a zero byte, before the literal is closed. Whatever else the
/// input holds is read as a token, be it `Illegal`.
pub proof fn lemma_only_an_open_quote_fails(src: Seq<u8>, pos: int)
    requires
        scan(src, pos).token is Err,
    ensures
        scan(src, pos).token == Err::<TokenView, LexerError>(
            LexerError::UnterminatedStringLiteral,
        ),
        byte_at(src, token_start(src, pos)) == '"' as u8,
        byte_at(src, run_end(src, token_start(src, pos) + 1, ByteClass::Quoted)) != '"' as u8,
{
}

/// The lexer never yields a `Caret`: the token is reserved.
pub proof fn lemma_caret_is_reserved(src: Seq<u8>, pos: int)
    requires
        scan(src, pos).token is Ok,
    ensures
        scan(src, pos).token->Ok_0.kind != TokenType::Caret,
{
}

/// No word is read as a number.
proof fn lemma_keyword_is_a_word(word: Seq<char>)
    ensures
        keyword_token(word).kind != TokenType::NumberLiteral,
{
}

} // verus!
