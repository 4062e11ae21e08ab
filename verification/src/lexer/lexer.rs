use super::scanning::{byte_at, is_digit, is_letter, run_end, scan, token_start, ByteClass, LexerError};
use super::scanning::{lemma_run_end, lemma_scan_advances};
use super::tokens::{lookup_keyword, Token, TokenView};
use vstd::prelude::*;
use vstd::string::StringSliceAdditionalSpecFns;
use vstd::utf8::{
    decode_utf8, encode_utf8, encode_utf8_decode_utf8, encode_utf8_valid_utf8, is_char_boundary,
    is_char_boundary_iff_not_is_continuation_byte, is_char_boundary_start_end_of_seq,
    length_of_first_scalar, pop_first_scalar, valid_utf8,
};

verus! {

/// In well-formed UTF-8 a character starts at every byte below 128, and the
/// end of the text is a boundary too.
pub proof fn lemma_boundary_at(bytes: Seq<u8>, i: int)
    requires
        valid_utf8(bytes),
        0 <= i <= bytes.len(),
        i < bytes.len() ==> bytes[i] < 128,
    ensures
        is_char_boundary(bytes, i),
{
    if i < bytes.len() {
        is_char_boundary_iff_not_is_continuation_byte(bytes, i);
    } else {
        is_char_boundary_start_end_of_seq(bytes);
    }
}

/// In well-formed UTF-8 a byte below 128 is a whole character: the next
/// character starts right behind it.
pub proof fn lemma_boundary_after_ascii(bytes: Seq<u8>, i: int)
    requires
        valid_utf8(bytes),
        0 <= i < bytes.len(),
        bytes[i] < 128,
    ensures
        is_char_boundary(bytes, i + 1),
    decreases bytes.len(),
{
    let width = length_of_first_scalar(bytes);
    let rest = pop_first_scalar(bytes);
    if i < width {
        assert(i == 0);
        assert(width == 1);
        is_char_boundary_start_end_of_seq(rest);
        assert(is_char_boundary(bytes, 1) == is_char_boundary(rest, 0));
    } else {
        lemma_boundary_after_ascii(rest, i - width);
        assert(is_char_boundary(bytes, i + 1) == is_char_boundary(rest, i + 1 - width));
    }
}

/// The part of `text` between two character boundaries, given as byte offsets.
fn slice<'a>(text: &'a str, from: usize, to: usize) -> (part: &'a str)
    requires
        from <= to <= text.spec_bytes().len(),
        is_char_boundary(text.spec_bytes(), from as int),
        is_char_boundary(text.spec_bytes(), to as int),
    ensures
        part.spec_bytes() == text.spec_bytes().subrange(from as int, to as int),
        part@ == decode_utf8(text.spec_bytes().subrange(from as int, to as int)),
{
    let (head, _) = text.split_at(to);
    proof {
        let bytes = text.spec_bytes();
        encode_utf8_valid_utf8(text@);
        encode_utf8_valid_utf8(head@);
        if from < to {
            is_char_boundary_iff_not_is_continuation_byte(bytes, from as int);
            is_char_boundary_iff_not_is_continuation_byte(head.spec_bytes(), from as int);
        } else {
            is_char_boundary_start_end_of_seq(head.spec_bytes());
        }
    }
    let (_, part) = head.split_at(from);
    proof {
        encode_utf8_decode_utf8(part@);
        assert(part.spec_bytes() =~= text.spec_bytes().subrange(from as int, to as int));
    }
    part
}

impl ByteClass {
    /// Whether `b` is a byte of this class.
    pub fn accepts(&self, b: u8) -> (yes: bool)
        ensures
            yes == self.holds(b),
    {
        match self {
            ByteClass::Blank => b == ' ' as u8 || b == '\t' as u8,
            ByteClass::Word => letter(b) || digit(b) || b == '_' as u8,
            ByteClass::Digit => digit(b),
            ByteClass::Comment => b != '\n' as u8 && b != 0,
            ByteClass::Quoted => b != '"' as u8 && b != 0,
        }
    }
}

/// Whether `b` is an ASCII letter.
fn letter(b: u8) -> (yes: bool)
    ensures
        yes == is_letter(b),
{
    ('a' as u8 <= b && b <= 'z' as u8) || ('A' as u8 <= b && b <= 'Z' as u8)
}

/// Whether `b` is an ASCII digit.
fn digit(b: u8) -> (yes: bool)
    ensures
        yes == is_digit(b),
{
    '0' as u8 <= b && b <= '9' as u8
}

/// What a step of the lexer yields, with the token taken by its view.
pub open spec fn lexed_view(res: Result<Token, LexerError>) -> Result<TokenView, LexerError> {
    match res {
        Ok(tok) => Ok(tok@),
        Err(e) => Err(e),
    }
}

/// A single-pass lexer with one character of lookahead. It hands out one token
/// per call of [`Lexer::next_token`] and keeps no state but its cursor.
#[derive(Debug, PartialEq, Eq, Clone, Copy)]
pub struct Lexer<'a> {
    input: &'a str,
    pos: usize,
    ch: u8,
}

impl<'a> Default for Lexer<'a> {
    /// A lexer over the empty input.
    fn default() -> (lexer: Self)
        ensures
            lexer.source() == Seq::<u8>::empty(),
            lexer.cursor() == 0,
    {
        let lexer = Lexer::new("");
        proof {
            reveal_strlit("");
            assert(""@ =~= Seq::<char>::empty());
            assert(encode_utf8(Seq::<char>::empty()) =~= Seq::<u8>::empty());
        }
        lexer
    }
}

impl<'a> Lexer<'a> {
    /// The cursor is inside the buffer or at its end, and `ch` is the byte
    /// under it.
    #[verifier::type_invariant]
    spec fn consistent(self) -> bool {
        &&& self.pos <= self.input.spec_bytes().len()
        &&& self.ch == byte_at(self.input.spec_bytes(), self.pos as int)
    }

    /// The bytes of the input.
    pub closed spec fn source(&self) -> Seq<u8> {
        self.input.spec_bytes()
    }

    /// The offset of the byte that is read next.
    pub closed spec fn cursor(&self) -> int {
        self.pos as int
    }

    /// A lexer at the start of `input`.
    pub fn new(input: &'a str) -> (lexer: Self)
        ensures
            lexer.source() == input.spec_bytes(),
            lexer.cursor() == 0,
    {
        let bytes = input.as_bytes();
        let ch = if bytes.len() > 0 {
            bytes[0]
        } else {
            0
        };
        Lexer { input, pos: 0, ch }
    }

    /// Reads the next token and moves the cursor behind it. At the end of the
    /// input, and at a zero byte, the token is `Eof`. The only failure is a
    /// quoted literal that is still open where the input ends.
    pub fn next_token(&mut self) -> (res: Result<Token<'a>, LexerError>)
        ensures
            final(self).source() == old(self).source(),
            lexed_view(res) == scan(old(self).source(), old(self).cursor()).token,
            final(self).cursor() == scan(old(self).source(), old(self).cursor()).next,
            0 <= old(self).cursor() <= final(self).cursor() <= old(self).source().len(),
    {
        let ghost src = self.source();
        let ghost from = self.cursor();
        proof {
            use_type_invariant(&*self);
            lemma_scan_advances(src, from);
        }
        self.munch_whitespace();
        proof {
            use_type_invariant(&*self);
        }
        if self.ch == '/' as u8 && self.peek_char() == '/' as u8 {
            self.skip_to_end_of_line();
        }
        proof {
            use_type_invariant(&*self);
            assert(self.cursor() == token_start(src, from));
        }
        let b = self.ch;
        let tok = if b == 0 {
            Token::Eof
        } else if b == '+' as u8 {
            Token::Plus
        } else if b == '-' as u8 {
            Token::Minus
        } else if b == '*' as u8 {
            Token::Asterisk
        } else if b == '/' as u8 {
            Token::FSlash
        } else if b == '(' as u8 {
            Token::LParenthasis
        } else if b == ')' as u8 {
            Token::RParenthasis
        } else if b == '[' as u8 {
            Token::LSquareBracket
        } else if b == ']' as u8 {
            Token::RSquareBracket
        } else if b == '{' as u8 {
            Token::LSquirly
        } else if b == '}' as u8 {
            Token::RSquirly
        } else if b == ',' as u8 {
            Token::Comma
        } else if b == ':' as u8 {
            Token::Colon
        } else if b == '\n' as u8 {
            Token::Newline
        } else if b == '>' as u8 {
            if self.peek_char() == '=' as u8 {
                self.read_char();
                Token::GThanOrEqual
            } else {
                Token::GThan
            }
        } else if b == '<' as u8 {
            if self.peek_char() == '=' as u8 {
                self.read_char();
                Token::LThanOrEqual
            } else {
                Token::LThan
            }
        } else if b == '=' as u8 {
            if self.peek_char() == '=' as u8 {
                self.read_char();
                Token::DoubleEquals
            } else {
                Token::Equals
            }
        } else if b == '!' as u8 {
            if self.peek_char() == '=' as u8 {
                self.read_char();
                Token::NotEqual
            } else {
                Token::Illegal
            }
        } else if letter(b) {
            return Ok(lookup_keyword(self.read_identifier()));
        } else if digit(b) {
            return self.read_number();
        } else if b == '"' as u8 {
            return self.read_string();
        } else {
            Token::Illegal
        };
        self.read_char();
        Ok(tok)
    }

    /// Reads the digits under the cursor as a number literal. The digits are
    /// kept as text, so this never fails.
    fn read_number(&mut self) -> (res: Result<Token<'a>, LexerError>)
        requires
            is_digit(byte_at(old(self).source(), old(self).cursor())),
        ensures
            final(self).source() == old(self).source(),
            final(self).cursor() == run_end(
                old(self).source(),
                old(self).cursor(),
                ByteClass::Digit,
            ),
            res matches Ok(Token::NumberLiteral(text)) && text@ == decode_utf8(
                old(self).source().subrange(old(self).cursor(), final(self).cursor()),
            ),
    {
        let start = self.pos;
        self.skip_run(ByteClass::Digit);
        Ok(Token::NumberLiteral(self.text_from(start, ByteClass::Digit)))
    }

    /// Reads the quoted literal whose opening quote is under the cursor, and
    /// moves behind its closing quote.
    fn read_string(&mut self) -> (res: Result<Token<'a>, LexerError>)
        requires
            byte_at(old(self).source(), old(self).cursor()) == '"' as u8,
        ensures
            final(self).source() == old(self).source(),
            ({
                let src = old(self).source();
                let start = old(self).cursor() + 1;
                let end = run_end(src, start, ByteClass::Quoted);
                if byte_at(src, end) == '"' as u8 {
                    &&& res matches Ok(Token::StringLiteral(text))
                    &&& text@ == decode_utf8(src.subrange(start, end))
                    &&& final(self).cursor() == end + 1
                } else {
                    &&& res == Err::<Token, LexerError>(LexerError::UnterminatedStringLiteral)
                    &&& final(self).cursor() == end
                }
            }),
    {
        proof {
            use_type_invariant(&*self);
        }
        self.read_char();
        let start = self.pos;
        self.skip_run(ByteClass::Quoted);
        proof {
            use_type_invariant(&*self);
            lemma_run_end(self.source(), start as int, ByteClass::Quoted);
        }
        if self.ch != '"' as u8 {
            return Err(LexerError::UnterminatedStringLiteral);
        }
        proof {
            let src = self.input.spec_bytes();
            encode_utf8_valid_utf8(self.input@);
            lemma_boundary_after_ascii(src, start - 1);
            lemma_boundary_at(src, self.pos as int);
        }
        let text = slice(self.input, start, self.pos);
        self.read_char();
        Ok(Token::StringLiteral(text))
    }

    /// The byte behind the one under the cursor, and 0 where the input ends.
    fn peek_char(&self) -> (b: u8)
        ensures
            b == byte_at(self.source(), self.cursor() + 1),
    {
        proof {
            use_type_invariant(self);
        }
        let bytes = self.input.as_bytes();
        if self.pos >= bytes.len() || self.pos + 1 >= bytes.len() {
            0
        } else {
            bytes[self.pos + 1]
        }
    }

    /// Moves the cursor one byte on, unless it stands at the end.
    fn read_char(&mut self)
        ensures
            final(self).source() == old(self).source(),
            final(self).cursor() == if old(self).cursor() < old(self).source().len() {
                old(self).cursor() + 1
            } else {
                old(self).cursor()
            },
    {
        proof {
            use_type_invariant(&*self);
        }
        let bytes = self.input.as_bytes();
        let pos = if self.pos < bytes.len() {
            self.pos + 1
        } else {
            self.pos
        };
        let ch = if pos < bytes.len() {
            bytes[pos]
        } else {
            0
        };
        *self = Lexer { input: self.input, pos, ch };
    }

    /// Moves the cursor behind the longest run of bytes of `class`.
    fn skip_run(&mut self, class: ByteClass)
        ensures
            final(self).source() == old(self).source(),
            final(self).cursor() == run_end(old(self).source(), old(self).cursor(), class),
    {
        proof {
            use_type_invariant(&*self);
        }
        while class.accepts(self.ch)
            invariant
                self.source() == old(self).source(),
                0 <= self.cursor() <= self.source().len(),
                self.ch == byte_at(self.source(), self.cursor()),
                run_end(self.source(), self.cursor(), class) == run_end(
                    old(self).source(),
                    old(self).cursor(),
                    class,
                ),
            decreases self.source().len() - self.cursor(),
        {
            self.read_char();
            proof {
                use_type_invariant(&*self);
            }
        }
    }

    /// Passes the blanks under the cursor. It stops at a line break, which is
    /// a token.
    fn munch_whitespace(&mut self)
        ensures
            final(self).source() == old(self).source(),
            final(self).cursor() == run_end(
                old(self).source(),
                old(self).cursor(),
                ByteClass::Blank,
            ),
    {
        self.skip_run(ByteClass::Blank);
    }

    /// Passes the rest of the line. The cursor stops at the line break or at
    /// the end of the input.
    fn skip_to_end_of_line(&mut self)
        ensures
            final(self).source() == old(self).source(),
            final(self).cursor() == run_end(
                old(self).source(),
                old(self).cursor(),
                ByteClass::Comment,
            ),
    {
        self.skip_run(ByteClass::Comment);
    }

    /// Reads the word under the cursor: the longest run of letters, digits and
    /// underscores.
    fn read_identifier(&mut self) -> (word: &'a str)
        requires
            is_letter(byte_at(old(self).source(), old(self).cursor())),
        ensures
            final(self).source() == old(self).source(),
            final(self).cursor() == run_end(
                old(self).source(),
                old(self).cursor(),
                ByteClass::Word,
            ),
            word@ == decode_utf8(
                old(self).source().subrange(old(self).cursor(), final(self).cursor()),
            ),
    {
        let start = self.pos;
        self.skip_run(ByteClass::Word);
        self.text_from(start, ByteClass::Word)
    }

    /// The text of the run of `class` that ends under the cursor.
    fn text_from(&self, start: usize, class: ByteClass) -> (text: &'a str)
        requires
            0 <= start < self.source().len(),
            class.holds(self.source()[start as int]),
            class == ByteClass::Word || class == ByteClass::Digit,
            self.cursor() == run_end(self.source(), start as int, class),
        ensures
            text@ == decode_utf8(self.source().subrange(start as int, self.cursor())),
    {
        proof {
            use_type_invariant(self);
            let src = self.input.spec_bytes();
            encode_utf8_valid_utf8(self.input@);
            lemma_run_end(src, start as int, class);
            lemma_boundary_at(src, start as int);
            assert(class.holds(src[self.pos - 1]));
            lemma_boundary_after_ascii(src, self.pos - 1);
        }
        slice(self.input, start, self.pos)
    }
}

} // verus!
