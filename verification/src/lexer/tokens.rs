use vstd::prelude::*;
use vstd::string::StringSliceAdditionalSpecFns;
use vstd::utf8::{decode_utf8, encode_utf8, encode_utf8_decode_utf8};

verus! {

/// A lexical unit. The three variants with text borrow it from the source, so a
/// token is cheap to copy and lives no longer than the buffer it was read from.
#[derive(Hash, PartialEq, Eq, Debug, Clone, Copy)]
pub enum Token<'a> {
    /// A name: a letter followed by letters, digits and underscores that is no keyword.
    Identifier(&'a str),
    Equals,
    DoubleEquals,
    NotEqual,
    GThanOrEqual,
    LThanOrEqual,
    GThan,
    LThan,
    /// The text between a pair of double quotes, without the quotes.
    StringLiteral(&'a str),
    LParenthasis,
    RParenthasis,
    LSquirly,
    RSquirly,
    LSquareBracket,
    RSquareBracket,
    Plus,
    Asterisk,
    FSlash,
    Minus,
    /// Reserved: the lexer never yields it.
    Caret,
    Colon,
    /// A run of decimal digits, kept as text. The parser converts it to a value,
    /// so a token stays a cheap view into the source.
    NumberLiteral(&'a str),
    Comma,
    /// The end of the input, or a zero byte in it.
    Eof,
    Global,
    For,
    Endfor,
    Next,
    While,
    Endwhile,
    Do,
    Until,
    And,
    If,
    Else,
    Or,
    Not,
    Endif,
    Return,
    Function,
    Endfunction,
    Then,
    Switch,
    Case,
    Default,
    Endswitch,
    Procedure,
    Endprocedure,
    Div,
    Mod,
    True,
    False,
    /// A line break. It ends a statement.
    Newline,
    /// Any character that starts no token.
    Illegal,
}

/// The classification of a [`Token`]: the same variants, without the text.
#[derive(Hash, PartialEq, Eq, Debug, Clone, Copy, Structural)]
pub enum TokenType {
    Identifier,
    Equals,
    DoubleEquals,
    NotEqual,
    GThanOrEqual,
    LThanOrEqual,
    GThan,
    LThan,
    StringLiteral,
    LParenthasis,
    RParenthasis,
    LSquirly,
    RSquirly,
    LSquareBracket,
    RSquareBracket,
    Plus,
    Asterisk,
    FSlash,
    Minus,
    Caret,
    Colon,
    NumberLiteral,
    Comma,
    Eof,
    Global,
    For,
    Endfor,
    Next,
    While,
    Endwhile,
    Do,
    Until,
    And,
    If,
    Else,
    Or,
    Not,
    Endif,
    Return,
    Function,
    Endfunction,
    Then,
    Switch,
    Case,
    Default,
    Endswitch,
    Procedure,
    Endprocedure,
    Div,
    Mod,
    True,
    False,
    Newline,
    Illegal,
}

/// What a token is in contracts: its classification and the characters it
/// carries (none for a token without text).
pub struct TokenView {
    pub kind: TokenType,
    pub text: Seq<char>,
}

impl TokenView {
    /// The view of a token that carries no text.
    pub open spec fn plain(kind: TokenType) -> TokenView {
        TokenView { kind, text: Seq::empty() }
    }

    /// The name this token stands for when it is used as an identifier: its
    /// text if it is an `Identifier`, and nothing otherwise.
    pub open spec fn name(self) -> Seq<char> {
        if self.kind == TokenType::Identifier {
            self.text
        } else {
            Seq::empty()
        }
    }
}

impl<'a> Token<'a> {
    /// The classification of this token.
    pub open spec fn kind(self) -> TokenType {
        match self {
            Token::Identifier(_) => TokenType::Identifier,
            Token::Equals => TokenType::Equals,
            Token::DoubleEquals => TokenType::DoubleEquals,
            Token::NotEqual => TokenType::NotEqual,
            Token::GThanOrEqual => TokenType::GThanOrEqual,
            Token::LThanOrEqual => TokenType::LThanOrEqual,
            Token::GThan => TokenType::GThan,
            Token::LThan => TokenType::LThan,
            Token::StringLiteral(_) => TokenType::StringLiteral,
            Token::LParenthasis => TokenType::LParenthasis,
            Token::RParenthasis => TokenType::RParenthasis,
            Token::LSquirly => TokenType::LSquirly,
            Token::RSquirly => TokenType::RSquirly,
            Token::LSquareBracket => TokenType::LSquareBracket,
            Token::RSquareBracket => TokenType::RSquareBracket,
            Token::Plus => TokenType::Plus,
            Token::Asterisk => TokenType::Asterisk,
            Token::FSlash => TokenType::FSlash,
            Token::Minus => TokenType::Minus,
            Token::Caret => TokenType::Caret,
            Token::Colon => TokenType::Colon,
            Token::NumberLiteral(_) => TokenType::NumberLiteral,
            Token::Comma => TokenType::Comma,
            Token::Eof => TokenType::Eof,
            Token::Global => TokenType::Global,
            Token::For => TokenType::For,
            Token::Endfor => TokenType::Endfor,
            Token::Next => TokenType::Next,
            Token::While => TokenType::While,
            Token::Endwhile => TokenType::Endwhile,
            Token::Do => TokenType::Do,
            Token::Until => TokenType::Until,
            Token::And => TokenType::And,
            Token::If => TokenType::If,
            Token::Else => TokenType::Else,
            Token::Or => TokenType::Or,
            Token::Not => TokenType::Not,
            Token::Endif => TokenType::Endif,
            Token::Return => TokenType::Return,
            Token::Function => TokenType::Function,
            Token::Endfunction => TokenType::Endfunction,
            Token::Then => TokenType::Then,
            Token::Switch => TokenType::Switch,
            Token::Case => TokenType::Case,
            Token::Default => TokenType::Default,
            Token::Endswitch => TokenType::Endswitch,
            Token::Procedure => TokenType::Procedure,
            Token::Endprocedure => TokenType::Endprocedure,
            Token::Div => TokenType::Div,
            Token::Mod => TokenType::Mod,
            Token::True => TokenType::True,
            Token::False => TokenType::False,
            Token::Newline => TokenType::Newline,
            Token::Illegal => TokenType::Illegal,
        }
    }

    /// The characters this token carries.
    pub open spec fn text(self) -> Seq<char> {
        match self {
            Token::Identifier(s) => s@,
            Token::StringLiteral(s) => s@,
            Token::NumberLiteral(s) => s@,
            _ => Seq::empty(),
        }
    }
}

impl<'a> View for Token<'a> {
    type V = TokenView;

    open spec fn view(&self) -> TokenView {
        TokenView { kind: self.kind(), text: self.text() }
    }
}

impl<'a> Default for Token<'a> {
    /// The error sentinel, `Illegal`.
    fn default() -> (t: Self)
        ensures
            t == Token::<'a>::Illegal,
    {
        Token::Illegal
    }
}

impl Default for TokenType {
    /// The error sentinel, `Illegal`.
    fn default() -> (t: Self)
        ensures
            t == TokenType::Illegal,
    {
        TokenType::Illegal
    }
}

impl<'a> From<Token<'a>> for TokenType {
    fn from(value: Token<'a>) -> (t: TokenType) {
        match value {
            Token::Identifier(_) => TokenType::Identifier,
            Token::Equals => TokenType::Equals,
            Token::DoubleEquals => TokenType::DoubleEquals,
            Token::NotEqual => TokenType::NotEqual,
            Token::GThanOrEqual => TokenType::GThanOrEqual,
            Token::LThanOrEqual => TokenType::LThanOrEqual,
            Token::GThan => TokenType::GThan,
            Token::LThan => TokenType::LThan,
            Token::StringLiteral(_) => TokenType::StringLiteral,
            Token::LParenthasis => TokenType::LParenthasis,
            Token::RParenthasis => TokenType::RParenthasis,
            Token::LSquirly => TokenType::LSquirly,
            Token::RSquirly => TokenType::RSquirly,
            Token::LSquareBracket => TokenType::LSquareBracket,
            Token::RSquareBracket => TokenType::RSquareBracket,
            Token::Plus => TokenType::Plus,
            Token::Asterisk => TokenType::Asterisk,
            Token::FSlash => TokenType::FSlash,
            Token::Minus => TokenType::Minus,
            Token::Caret => TokenType::Caret,
            Token::Colon => TokenType::Colon,
            Token::NumberLiteral(_) => TokenType::NumberLiteral,
            Token::Comma => TokenType::Comma,
            Token::Eof => TokenType::Eof,
            Token::Global => TokenType::Global,
            Token::For => TokenType::For,
            Token::Endfor => TokenType::Endfor,
            Token::Next => TokenType::Next,
            Token::While => TokenType::While,
            Token::Endwhile => TokenType::Endwhile,
            Token::Do => TokenType::Do,
            Token::Until => TokenType::Until,
            Token::And => TokenType::And,
            Token::If => TokenType::If,
            Token::Else => TokenType::Else,
            Token::Or => TokenType::Or,
            Token::Not => TokenType::Not,
            Token::Endif => TokenType::Endif,
            Token::Return => TokenType::Return,
            Token::Function => TokenType::Function,
            Token::Endfunction => TokenType::Endfunction,
            Token::Then => TokenType::Then,
            Token::Switch => TokenType::Switch,
            Token::Case => TokenType::Case,
            Token::Default => TokenType::Default,
            Token::Endswitch => TokenType::Endswitch,
            Token::Procedure => TokenType::Procedure,
            Token::Endprocedure => TokenType::Endprocedure,
            Token::Div => TokenType::Div,
            Token::Mod => TokenType::Mod,
            Token::True => TokenType::True,
            Token::False => TokenType::False,
            Token::Newline => TokenType::Newline,
            Token::Illegal => TokenType::Illegal,
        }
    }
}

impl<'a> vstd::std_specs::convert::FromSpecImpl<Token<'a>> for TokenType {
    open spec fn obeys_from_spec() -> bool {
        true
    }

    open spec fn from_spec(value: Token<'a>) -> TokenType {
        value.kind()
    }
}

/// What an error report keeps of a token: its classification.
#[derive(PartialEq, Eq, Clone, Copy, Debug, Structural)]
pub struct TokenDebugInfo {
    pub tok_type: TokenType,
}

impl<'a> From<Token<'a>> for TokenDebugInfo {
    fn from(value: Token<'a>) -> (info: TokenDebugInfo) {
        TokenDebugInfo { tok_type: TokenType::from(value) }
    }
}

impl<'a> vstd::std_specs::convert::FromSpecImpl<Token<'a>> for TokenDebugInfo {
    open spec fn obeys_from_spec() -> bool {
        true
    }

    open spec fn from_spec(value: Token<'a>) -> TokenDebugInfo {
        TokenDebugInfo { tok_type: value.kind() }
    }
}

/// The keyword table: the classification of a scanned word. A word that is no
/// keyword, letter for letter and in the same case, is an `Identifier`.
pub open spec fn keyword_kind(word: Seq<char>) -> TokenType {
    if word == "true"@ {
        TokenType::True
    } else if word == "false"@ {
        TokenType::False
    } else if word == "switch"@ {
        TokenType::Switch
    } else if word == "endswitch"@ {
        TokenType::Endswitch
    } else if word == "case"@ {
        TokenType::Case
    } else if word == "default"@ {
        TokenType::Default
    } else if word == "return"@ {
        TokenType::Return
    } else if word == "for"@ {
        TokenType::For
    } else if word == "endfor"@ {
        TokenType::Endfor
    } else if word == "global"@ {
        TokenType::Global
    } else if word == "do"@ {
        TokenType::Do
    } else if word == "until"@ {
        TokenType::Until
    } else if word == "if"@ {
        TokenType::If
    } else if word == "else"@ {
        TokenType::Else
    } else if word == "then"@ {
        TokenType::Then
    } else if word == "OR"@ {
        TokenType::Or
    } else if word == "NOT"@ {
        TokenType::Not
    } else if word == "AND"@ {
        TokenType::And
    } else if word == "DIV"@ {
        TokenType::Div
    } else if word == "MOD"@ {
        TokenType::Mod
    } else if word == "while"@ {
        TokenType::While
    } else if word == "endwhile"@ {
        TokenType::Endwhile
    } else if word == "next"@ {
        TokenType::Next
    } else if word == "endif"@ {
        TokenType::Endif
    } else if word == "procedure"@ {
        TokenType::Procedure
    } else if word == "endprocedure"@ {
        TokenType::Endprocedure
    } else if word == "function"@ {
        TokenType::Function
    } else if word == "endfunction"@ {
        TokenType::Endfunction
    } else {
        TokenType::Identifier
    }
}

/// The token that a scanned word stands for: the keyword it spells, or an
/// `Identifier` over the word itself.
pub open spec fn keyword_token(word: Seq<char>) -> TokenView {
    let kind = keyword_kind(word);
    if kind == TokenType::Identifier {
        TokenView { kind, text: word }
    } else {
        TokenView::plain(kind)
    }
}

/// The keyword table holds each keyword once: every spelling stands for its own
/// keyword, and no entry hides another.
pub proof fn lemma_keyword_table()
    ensures
        keyword_kind("true"@) == TokenType::True,
        keyword_kind("false"@) == TokenType::False,
        keyword_kind("switch"@) == TokenType::Switch,
        keyword_kind("endswitch"@) == TokenType::Endswitch,
        keyword_kind("case"@) == TokenType::Case,
        keyword_kind("default"@) == TokenType::Default,
        keyword_kind("return"@) == TokenType::Return,
        keyword_kind("for"@) == TokenType::For,
        keyword_kind("endfor"@) == TokenType::Endfor,
        keyword_kind("global"@) == TokenType::Global,
        keyword_kind("do"@) == TokenType::Do,
        keyword_kind("until"@) == TokenType::Until,
        keyword_kind("if"@) == TokenType::If,
        keyword_kind("else"@) == TokenType::Else,
        keyword_kind("then"@) == TokenType::Then,
        keyword_kind("OR"@) == TokenType::Or,
        keyword_kind("NOT"@) == TokenType::Not,
        keyword_kind("AND"@) == TokenType::And,
        keyword_kind("DIV"@) == TokenType::Div,
        keyword_kind("MOD"@) == TokenType::Mod,
        keyword_kind("while"@) == TokenType::While,
        keyword_kind("endwhile"@) == TokenType::Endwhile,
        keyword_kind("next"@) == TokenType::Next,
        keyword_kind("endif"@) == TokenType::Endif,
        keyword_kind("procedure"@) == TokenType::Procedure,
        keyword_kind("endprocedure"@) == TokenType::Endprocedure,
        keyword_kind("function"@) == TokenType::Function,
        keyword_kind("endfunction"@) == TokenType::Endfunction,
{
    reveal_strlit("true");
    reveal_strlit("false");
    reveal_strlit("switch");
    reveal_strlit("endswitch");
    reveal_strlit("case");
    reveal_strlit("default");
    reveal_strlit("return");
    reveal_strlit("for");
    reveal_strlit("endfor");
    reveal_strlit("global");
    reveal_strlit("do");
    reveal_strlit("until");
    reveal_strlit("if");
    reveal_strlit("else");
    reveal_strlit("then");
    reveal_strlit("OR");
    reveal_strlit("NOT");
    reveal_strlit("AND");
    reveal_strlit("DIV");
    reveal_strlit("MOD");
    reveal_strlit("while");
    reveal_strlit("endwhile");
    reveal_strlit("next");
    reveal_strlit("endif");
    reveal_strlit("procedure");
    reveal_strlit("endprocedure");
    reveal_strlit("function");
    reveal_strlit("endfunction");
    assert("true"@.len() == 4);
    assert("false"@.len() == 5);
    assert("switch"@.len() == 6);
    assert("endswitch"@.len() == 9);
    assert("case"@.len() == 4);
    assert("default"@.len() == 7);
    assert("return"@.len() == 6);
    assert("for"@.len() == 3);
    assert("endfor"@.len() == 6);
    assert("global"@.len() == 6);
    assert("do"@.len() == 2);
    assert("until"@.len() == 5);
    assert("if"@.len() == 2);
    assert("else"@.len() == 4);
    assert("then"@.len() == 4);
    assert("OR"@.len() == 2);
    assert("NOT"@.len() == 3);
    assert("AND"@.len() == 3);
    assert("DIV"@.len() == 3);
    assert("MOD"@.len() == 3);
    assert("while"@.len() == 5);
    assert("endwhile"@.len() == 8);
    assert("next"@.len() == 4);
    assert("endif"@.len() == 5);
    assert("procedure"@.len() == 9);
    assert("endprocedure"@.len() == 12);
    assert("function"@.len() == 8);
    assert("endfunction"@.len() == 11);
    assert("case"@[0] != "true"@[0]);
    assert("return"@[0] != "switch"@[0]);
    assert("endfor"@[0] != "switch"@[0]);
    assert("endfor"@[0] != "return"@[0]);
    assert("global"@[0] != "switch"@[0]);
    assert("global"@[0] != "return"@[0]);
    assert("global"@[0] != "endfor"@[0]);
    assert("until"@[0] != "false"@[0]);
    assert("if"@[0] != "do"@[0]);
    assert("else"@[0] != "true"@[0]);
    assert("else"@[0] != "case"@[0]);
    assert("then"@[1] != "true"@[1]);
    assert("then"@[0] != "case"@[0]);
    assert("then"@[0] != "else"@[0]);
    assert("OR"@[0] != "do"@[0]);
    assert("OR"@[0] != "if"@[0]);
    assert("NOT"@[0] != "for"@[0]);
    assert("AND"@[0] != "for"@[0]);
    assert("AND"@[0] != "NOT"@[0]);
    assert("DIV"@[0] != "for"@[0]);
    assert("DIV"@[0] != "NOT"@[0]);
    assert("DIV"@[0] != "AND"@[0]);
    assert("MOD"@[0] != "for"@[0]);
    assert("MOD"@[0] != "NOT"@[0]);
    assert("MOD"@[0] != "AND"@[0]);
    assert("MOD"@[0] != "DIV"@[0]);
    assert("while"@[0] != "false"@[0]);
    assert("while"@[0] != "until"@[0]);
    assert("next"@[0] != "true"@[0]);
    assert("next"@[0] != "case"@[0]);
    assert("next"@[0] != "else"@[0]);
    assert("next"@[0] != "then"@[0]);
    assert("endif"@[0] != "false"@[0]);
    assert("endif"@[0] != "until"@[0]);
    assert("endif"@[0] != "while"@[0]);
    assert("procedure"@[0] != "endswitch"@[0]);
    assert("function"@[0] != "endwhile"@[0]);
}

/// Whether two strings hold the same characters.
fn same_text(a: &str, b: &str) -> (same: bool)
    ensures
        same == (a@ == b@),
{
    let x = a.as_bytes();
    let y = b.as_bytes();
    proof {
        encode_utf8_decode_utf8(a@);
        encode_utf8_decode_utf8(b@);
    }
    if x.len() != y.len() {
        return false;
    }
    let mut i: usize = 0;
    while i < x.len()
        invariant
            x@ == encode_utf8(a@),
            y@ == encode_utf8(b@),
            x@.len() == y@.len(),
            i <= x@.len(),
            forall|j: int| 0 <= j < i ==> x@[j] == y@[j],
            decode_utf8(encode_utf8(a@)) == a@,
            decode_utf8(encode_utf8(b@)) == b@,
        decreases x@.len() - i,
    {
        if x[i] != y[i] {
            return false;
        }
        i += 1;
    }
    assert(x@ =~= y@);
    true
}

/// Looks a scanned word up in the keyword table. A miss yields an `Identifier`
/// over the word.
pub fn lookup_keyword<'a>(ident: &'a str) -> (tok: Token<'a>)
    ensures
        tok@ == keyword_token(ident@),
        tok is Identifier ==> tok == Token::Identifier(ident),
{
    if same_text(ident, "true") {
        Token::True
    } else if same_text(ident, "false") {
        Token::False
    } else if same_text(ident, "switch") {
        Token::Switch
    } else if same_text(ident, "endswitch") {
        Token::Endswitch
    } else if same_text(ident, "case") {
        Token::Case
    } else if same_text(ident, "default") {
        Token::Default
    } else if same_text(ident, "return") {
        Token::Return
    } else if same_text(ident, "for") {
        Token::For
    } else if same_text(ident, "endfor") {
        Token::Endfor
    } else if same_text(ident, "global") {
        Token::Global
    } else if same_text(ident, "do") {
        Token::Do
    } else if same_text(ident, "until") {
        Token::Until
    } else if same_text(ident, "if") {
        Token::If
    } else if same_text(ident, "else") {
        Token::Else
    } else if same_text(ident, "then") {
        Token::Then
    } else if same_text(ident, "OR") {
        Token::Or
    } else if same_text(ident, "NOT") {
        Token::Not
    } else if same_text(ident, "AND") {
        Token::And
    } else if same_text(ident, "DIV") {
        Token::Div
    } else if same_text(ident, "MOD") {
        Token::Mod
    } else if same_text(ident, "while") {
        Token::While
    } else if same_text(ident, "endwhile") {
        Token::Endwhile
    } else if same_text(ident, "next") {
        Token::Next
    } else if same_text(ident, "endif") {
        Token::Endif
    } else if same_text(ident, "procedure") {
        Token::Procedure
    } else if same_text(ident, "endprocedure") {
        Token::Endprocedure
    } else if same_text(ident, "function") {
        Token::Function
    } else if same_text(ident, "endfunction") {
        Token::Endfunction
    } else {
        Token::Identifier(ident)
    }
}

/// The keywords that end a block: `endif`, `endfunction`, `endprocedure`,
/// `endfor`, `endwhile`, `endswitch` and `else`.
pub open spec fn ends_block(kind: TokenType) -> bool {
    kind == TokenType::Endif
    || kind == TokenType::Endfunction
    || kind == TokenType::Endprocedure
    || kind == TokenType::Endfor
    || kind == TokenType::Endwhile
    || kind == TokenType::Endswitch
    || kind == TokenType::Else
}

/// The tokens that can stand before an operand: `+`, `-` and `NOT`.
pub open spec fn prefix_capable(kind: TokenType) -> bool {
    kind == TokenType::Plus
    || kind == TokenType::Minus
    || kind == TokenType::Not
}

/// The tokens that can stand between two operands: the arithmetic operators
/// `+ - * / DIV MOD`, the comparisons `== != < <= > >=`, and `OR` and `AND`.
pub open spec fn infix_capable(kind: TokenType) -> bool {
    kind == TokenType::Plus
    || kind == TokenType::Minus
    || kind == TokenType::Asterisk
    || kind == TokenType::FSlash
    || kind == TokenType::Div
    || kind == TokenType::Mod
    || kind == TokenType::DoubleEquals
    || kind == TokenType::NotEqual
    || kind == TokenType::LThan
    || kind == TokenType::LThanOrEqual
    || kind == TokenType::GThan
    || kind == TokenType::GThanOrEqual
    || kind == TokenType::Or
    || kind == TokenType::And
}

impl<'a> Token<'a> {
    /// Whether this token ends a block, like `endif` or `endfor`. Such a token is
    /// never part of the block it ends.
    pub fn is_block_ender(&self) -> (yes: bool)
        ensures
            yes == ends_block(self.kind()),
    {
        matches!(
            self,
            Token::Endif
                | Token::Endfunction
                | Token::Endprocedure
                | Token::Endfor
                | Token::Endwhile
                | Token::Endswitch
                | Token::Else
        )
    }

    /// Whether this token can be used as a prefix operator.
    pub fn is_prefix_op(&self) -> (yes: bool)
        ensures
            yes == prefix_capable(self.kind()),
    {
        matches!(
            self,
            Token::Plus
                | Token::Minus
                | Token::Not
        )
    }

    /// Whether this token can be used as an infix operator.
    pub fn is_infix_op(&self) -> (yes: bool)
        ensures
            yes == infix_capable(self.kind()),
    {
        matches!(
            self,
            Token::Plus
                | Token::Minus
                | Token::Asterisk
                | Token::FSlash
                | Token::Div
                | Token::Mod
                | Token::DoubleEquals
                | Token::NotEqual
                | Token::LThan
                | Token::LThanOrEqual
                | Token::GThan
                | Token::GThanOrEqual
                | Token::Or
                | Token::And
        )
    }
}

} // verus!
