use crate::lexer::{lemma_scan_advances, scan, LexerError, TokenType, TokenView};
use vstd::prelude::*;

verus! {

/// The tokens that a lexer hands out, one after the other, from some place in
/// the input on: the tokens up to the end of the input or, if lexing fails, up
/// to the failure.
pub struct TokenStream {
    pub tokens: Seq<TokenView>,
    pub failure: Option<LexerError>,
}

impl TokenStream {
    /// What the lexer yields at its call number `i`, counted from 0. Behind
    /// the last token it goes on yielding the failure, if there is one, and
    /// `Eof` else.
    pub open spec fn at(self, i: int) -> Result<TokenView, LexerError> {
        if 0 <= i < self.tokens.len() {
            Ok(self.tokens[i])
        } else {
            match self.failure {
                Some(e) => Err(e),
                None => Ok(TokenView::plain(TokenType::Eof)),
            }
        }
    }

    /// The token number `i`, where the lexer yields one.
    pub open spec fn token(self, i: int) -> TokenView {
        match self.at(i) {
            Ok(tok) => tok,
            Err(_) => TokenView::plain(TokenType::Illegal),
        }
    }

    /// The classification of the token number `i`.
    pub open spec fn kind(self, i: int) -> TokenType {
        self.token(i).kind
    }

    /// How many tokens are left from number `i` on.
    pub open spec fn remaining(self, i: int) -> nat {
        if i < self.tokens.len() {
            (self.tokens.len() - i) as nat
        } else {
            0
        }
    }
}

/// The tokens of the input `src` from the offset `pos` on.
#[verifier::opaque]
pub open spec fn lex(src: Seq<u8>, pos: int) -> TokenStream
    decreases src.len() - pos,
{
    let step = scan(src, pos);
    match step.token {
        Err(e) => TokenStream { tokens: Seq::empty(), failure: Some(e) },
        Ok(tok) => if pos < step.next <= src.len() {
            let rest = lex(src, step.next);
            TokenStream { tokens: seq![tok] + rest.tokens, failure: rest.failure }
        } else {
            TokenStream { tokens: seq![tok], failure: None }
        },
    }
}

impl TokenStream {
    /// This stream with the tokens `toks` before it.
    pub open spec fn behind(self, toks: Seq<TokenView>) -> TokenStream {
        TokenStream { tokens: toks + self.tokens, failure: self.failure }
    }
}

/// The tokens from an offset on are the token that the lexer reads there, and
/// the tokens from where it stands then.
pub proof fn lemma_lex_step(src: Seq<u8>, pos: int)
    requires
        scan(src, pos).token is Ok,
        pos < scan(src, pos).next <= src.len(),
    ensures
        lex(src, pos) == lex(src, scan(src, pos).next).behind(seq![scan(src, pos).token->Ok_0]),
{
    reveal(lex);
}

/// Tokens before a stream can be put there one part after the other.
pub proof fn lemma_behind_parts(ts: TokenStream, a: Seq<TokenView>, b: Seq<TokenView>)
    ensures
        ts.behind(b).behind(a) == ts.behind(a + b),
{
    assert(a + (b + ts.tokens) =~= (a + b) + ts.tokens);
}

/// Tokens that are read one run after the other are read as one run.
pub proof fn lemma_lex_chain(
    src: Seq<u8>,
    pos: int,
    mid: int,
    end: int,
    a: Seq<TokenView>,
    b: Seq<TokenView>,
)
    requires
        lex(src, pos) == lex(src, mid).behind(a),
        lex(src, mid) == lex(src, end).behind(b),
    ensures
        lex(src, pos) == lex(src, end).behind(a + b),
{
    lemma_behind_parts(lex(src, end), a, b);
}

/// Where the input ends, `Eof` is the one token left.
pub proof fn lemma_lex_at_end(src: Seq<u8>)
    ensures
        lex(src, src.len() as int) == (TokenStream {
            tokens: seq![TokenView::plain(TokenType::Eof)],
            failure: None,
        }),
{
    reveal(lex);
}

/// Whether the tokens from the offset `pos` on are those of `ts` from number
/// `from` on.
pub open spec fn follows(src: Seq<u8>, pos: int, ts: TokenStream, from: int) -> bool {
    forall|i: int| 0 <= i ==> #[trigger] lex(src, pos).at(i) == ts.at(from + i)
}

/// The tokens from an offset on are those of the stream that starts there.
pub proof fn lemma_follows_start(src: Seq<u8>, pos: int)
    ensures
        follows(src, pos, lex(src, pos), 0),
{
}

/// One step of the lexer yields the next token of the stream, and leaves the
/// rest of the stream to come.
pub proof fn lemma_follows_step(src: Seq<u8>, pos: int, ts: TokenStream, from: int)
    requires
        0 <= pos <= src.len(),
        follows(src, pos, ts, from),
    ensures
        ts.at(from) == scan(src, pos).token,
        scan(src, pos).token is Ok ==> follows(src, scan(src, pos).next, ts, from + 1),
{
    reveal(lex);
    let step = scan(src, pos);
    let here = lex(src, pos);
    lemma_scan_advances(src, pos);
    assert(here.at(0) == ts.at(from + 0));
    if step.token is Ok {
        let rest = lex(src, step.next);
        assert forall|i: int| 0 <= i implies #[trigger] rest.at(i) == ts.at(from + 1 + i) by {
            assert(here.at(i + 1) == ts.at(from + (i + 1)));
            if pos < step.next {
                if i < rest.tokens.len() {
                    assert(here.tokens[i + 1] == rest.tokens[i]);
                }
            } else {
                assert(rest == here);
                assert(here.at(0) == Ok::<TokenView, LexerError>(TokenView::plain(TokenType::Eof)));
            }
        }
    }
}

} // verus!
