//! Tokens: the units that the lexer cuts a source text into.

use vstd::prelude::*;
use vstd::string::*;

verus! {

/// One token of a source text.
///
/// A number token carries its numeral as it was written; identifiers and
/// strings carry their text.
#[derive(Debug, Clone, PartialEq)]
pub enum Token {
    Eof,
    Illegal,
    Comment,
    // Literals
    Ident(String),
    Number(String),
    String(String),
    Boolean(bool),
    // Operators
    Assign,
    Plus,
    Minus,
    Bang,
    Asterisk,
    Slash,
    Percent,
    Anew,
    In,
    // Bitwise operators
    AND,
    OR,
    XOR,
    LeftShift,
    RightShift,
    // Comparison
    Less,
    Greater,
    LessEqual,
    GreaterEqual,
    Equals,
    NotEquals,
    // Delimiters
    Comma,
    Colon,
    Semicolon,
    LeftParen,
    RightParen,
    LeftBrace,
    RightBrace,
    LeftBracket,
    RightBracket,
    // Keywords
    Bind,
    Func,
    If,
    Else,
    Return,
    Include,
    Typeof,
    Loop,
    Break,
    Continue,
}

/// The mathematical model of a [`Token`]: texts are sequences of characters.
pub enum TokenView {
    Eof,
    Illegal,
    Comment,
    Ident(Seq<char>),
    Number(Seq<char>),
    String(Seq<char>),
    Boolean(bool),
    Assign,
    Plus,
    Minus,
    Bang,
    Asterisk,
    Slash,
    Percent,
    Anew,
    In,
    AND,
    OR,
    XOR,
    LeftShift,
    RightShift,
    Less,
    Greater,
    LessEqual,
    GreaterEqual,
    Equals,
    NotEquals,
    Comma,
    Colon,
    Semicolon,
    LeftParen,
    RightParen,
    LeftBrace,
    RightBrace,
    LeftBracket,
    RightBracket,
    Bind,
    Func,
    If,
    Else,
    Return,
    Include,
    Typeof,
    Loop,
    Break,
    Continue,
}

impl View for Token {
    type V = TokenView;

    open spec fn view(&self) -> TokenView {
        match self {
            Token::Eof => TokenView::Eof,
            Token::Illegal => TokenView::Illegal,
            Token::Comment => TokenView::Comment,
            Token::Ident(s) => TokenView::Ident(s@),
            Token::Number(s) => TokenView::Number(s@),
            Token::String(s) => TokenView::String(s@),
            Token::Boolean(b) => TokenView::Boolean(*b),
            Token::Assign => TokenView::Assign,
            Token::Plus => TokenView::Plus,
            Token::Minus => TokenView::Minus,
            Token::Bang => TokenView::Bang,
            Token::Asterisk => TokenView::Asterisk,
            Token::Slash => TokenView::Slash,
            Token::Percent => TokenView::Percent,
            Token::Anew => TokenView::Anew,
            Token::In => TokenView::In,
            Token::AND => TokenView::AND,
            Token::OR => TokenView::OR,
            Token::XOR => TokenView::XOR,
            Token::LeftShift => TokenView::LeftShift,
            Token::RightShift => TokenView::RightShift,
            Token::Less => TokenView::Less,
            Token::Greater => TokenView::Greater,
            Token::LessEqual => TokenView::LessEqual,
            Token::GreaterEqual => TokenView::GreaterEqual,
            Token::Equals => TokenView::Equals,
            Token::NotEquals => TokenView::NotEquals,
            Token::Comma => TokenView::Comma,
            Token::Colon => TokenView::Colon,
            Token::Semicolon => TokenView::Semicolon,
            Token::LeftParen => TokenView::LeftParen,
            Token::RightParen => TokenView::RightParen,
            Token::LeftBrace => TokenView::LeftBrace,
            Token::RightBrace => TokenView::RightBrace,
            Token::LeftBracket => TokenView::LeftBracket,
            Token::RightBracket => TokenView::RightBracket,
            Token::Bind => TokenView::Bind,
            Token::Func => TokenView::Func,
            Token::If => TokenView::If,
            Token::Else => TokenView::Else,
            Token::Return => TokenView::Return,
            Token::Include => TokenView::Include,
            Token::Typeof => TokenView::Typeof,
            Token::Loop => TokenView::Loop,
            Token::Break => TokenView::Break,
            Token::Continue => TokenView::Continue,
        }
    }
}

/// Whether two texts hold the same characters.
pub fn same_text(a: &str, b: &str) -> (r: bool)
    ensures
        r == (a@ == b@),
{
    let n = a.unicode_len();
    if n != b.unicode_len() {
        return false;
    }
    let mut i: usize = 0;
    while i < n
        invariant
            i <= n,
            n == a@.len(),
            n == b@.len(),
            forall|k: int| 0 <= k < i ==> a@[k] == b@[k],
        decreases n - i,
    {
        if a.get_char(i) != b.get_char(i) {
            return false;
        }
        i += 1;
    }
    assert(a@ =~= b@);
    true
}

/// How a token is written in a message.
pub open spec fn token_text(t: TokenView) -> Seq<char> {
    match t {
        TokenView::Eof => "Eof"@,
        TokenView::Illegal => "Illegal"@,
        TokenView::Comment => "Comment"@,
        TokenView::Ident(s) => "Ident(\""@ + s + "\")"@,
        TokenView::Number(s) => "Number("@ + s + ")"@,
        TokenView::String(s) => "String(\""@ + s + "\")"@,
        TokenView::Boolean(b) => if b {
            "Boolean(true)"@
        } else {
            "Boolean(false)"@
        },
        TokenView::Assign => "Assign"@,
        TokenView::Plus => "Plus"@,
        TokenView::Minus => "Minus"@,
        TokenView::Bang => "Bang"@,
        TokenView::Asterisk => "Asterisk"@,
        TokenView::Slash => "Slash"@,
        TokenView::Percent => "Percent"@,
        TokenView::Anew => "Anew"@,
        TokenView::In => "In"@,
        TokenView::AND => "AND"@,
        TokenView::OR => "OR"@,
        TokenView::XOR => "XOR"@,
        TokenView::LeftShift => "LeftShift"@,
        TokenView::RightShift => "RightShift"@,
        TokenView::Less => "Less"@,
        TokenView::Greater => "Greater"@,
        TokenView::LessEqual => "LessEqual"@,
        TokenView::GreaterEqual => "GreaterEqual"@,
        TokenView::Equals => "Equals"@,
        TokenView::NotEquals => "NotEquals"@,
        TokenView::Comma => "Comma"@,
        TokenView::Colon => "Colon"@,
        TokenView::Semicolon => "Semicolon"@,
        TokenView::LeftParen => "LeftParen"@,
        TokenView::RightParen => "RightParen"@,
        TokenView::LeftBrace => "LeftBrace"@,
        TokenView::RightBrace => "RightBrace"@,
        TokenView::LeftBracket => "LeftBracket"@,
        TokenView::RightBracket => "RightBracket"@,
        TokenView::Bind => "Set"@,
        TokenView::Func => "Func"@,
        TokenView::If => "If"@,
        TokenView::Else => "Else"@,
        TokenView::Return => "Return"@,
        TokenView::Include => "Include"@,
        TokenView::Typeof => "Typeof"@,
        TokenView::Loop => "Loop"@,
        TokenView::Break => "Break"@,
        TokenView::Continue => "Continue"@,
    }
}

/// A number that tells the kinds of tokens apart.
pub open spec fn token_code(t: TokenView) -> nat {
    match t {
        TokenView::Ident(_) => 0,
        TokenView::Number(_) => 1,
        TokenView::String(_) => 2,
        TokenView::Boolean(_) => 3,
        TokenView::Eof => 4,
        TokenView::Illegal => 5,
        TokenView::Comment => 6,
        TokenView::Assign => 7,
        TokenView::Plus => 8,
        TokenView::Minus => 9,
        TokenView::Bang => 10,
        TokenView::Asterisk => 11,
        TokenView::Slash => 12,
        TokenView::Percent => 13,
        TokenView::Anew => 14,
        TokenView::In => 15,
        TokenView::AND => 16,
        TokenView::OR => 17,
        TokenView::XOR => 18,
        TokenView::LeftShift => 19,
        TokenView::RightShift => 20,
        TokenView::Less => 21,
        TokenView::Greater => 22,
        TokenView::LessEqual => 23,
        TokenView::GreaterEqual => 24,
        TokenView::Equals => 25,
        TokenView::NotEquals => 26,
        TokenView::Comma => 27,
        TokenView::Colon => 28,
        TokenView::Semicolon => 29,
        TokenView::LeftParen => 30,
        TokenView::RightParen => 31,
        TokenView::LeftBrace => 32,
        TokenView::RightBrace => 33,
        TokenView::LeftBracket => 34,
        TokenView::RightBracket => 35,
        TokenView::Bind => 36,
        TokenView::Func => 37,
        TokenView::If => 38,
        TokenView::Else => 39,
        TokenView::Return => 40,
        TokenView::Include => 41,
        TokenView::Typeof => 42,
        TokenView::Loop => 43,
        TokenView::Break => 44,
        TokenView::Continue => 45,
    }
}

impl Token {
    /// A copy of the token.
    pub fn duplicate(&self) -> (r: Token)
        ensures
            r@ == self@,
    {
        match self {
            Token::Ident(s) => Token::Ident(s.clone()),
            Token::Number(s) => Token::Number(s.clone()),
            Token::String(s) => Token::String(s.clone()),
            Token::Boolean(b) => Token::Boolean(*b),
            Token::Eof => Token::Eof,
            Token::Illegal => Token::Illegal,
            Token::Comment => Token::Comment,
            Token::Assign => Token::Assign,
            Token::Plus => Token::Plus,
            Token::Minus => Token::Minus,
            Token::Bang => Token::Bang,
            Token::Asterisk => Token::Asterisk,
            Token::Slash => Token::Slash,
            Token::Percent => Token::Percent,
            Token::Anew => Token::Anew,
            Token::In => Token::In,
            Token::AND => Token::AND,
            Token::OR => Token::OR,
            Token::XOR => Token::XOR,
            Token::LeftShift => Token::LeftShift,
            Token::RightShift => Token::RightShift,
            Token::Less => Token::Less,
            Token::Greater => Token::Greater,
            Token::LessEqual => Token::LessEqual,
            Token::GreaterEqual => Token::GreaterEqual,
            Token::Equals => Token::Equals,
            Token::NotEquals => Token::NotEquals,
            Token::Comma => Token::Comma,
            Token::Colon => Token::Colon,
            Token::Semicolon => Token::Semicolon,
            Token::LeftParen => Token::LeftParen,
            Token::RightParen => Token::RightParen,
            Token::LeftBrace => Token::LeftBrace,
            Token::RightBrace => Token::RightBrace,
            Token::LeftBracket => Token::LeftBracket,
            Token::RightBracket => Token::RightBracket,
            Token::Bind => Token::Bind,
            Token::Func => Token::Func,
            Token::If => Token::If,
            Token::Else => Token::Else,
            Token::Return => Token::Return,
            Token::Include => Token::Include,
            Token::Typeof => Token::Typeof,
            Token::Loop => Token::Loop,
            Token::Break => Token::Break,
            Token::Continue => Token::Continue,
        }
    }

    /// The number of the token's kind.
    pub fn code(&self) -> (r: u8)
        ensures
            r == token_code(self@),
    {
        match self {
            Token::Ident(_) => 0,
            Token::Number(_) => 1,
            Token::String(_) => 2,
            Token::Boolean(_) => 3,
            Token::Eof => 4,
            Token::Illegal => 5,
            Token::Comment => 6,
            Token::Assign => 7,
            Token::Plus => 8,
            Token::Minus => 9,
            Token::Bang => 10,
            Token::Asterisk => 11,
            Token::Slash => 12,
            Token::Percent => 13,
            Token::Anew => 14,
            Token::In => 15,
            Token::AND => 16,
            Token::OR => 17,
            Token::XOR => 18,
            Token::LeftShift => 19,
            Token::RightShift => 20,
            Token::Less => 21,
            Token::Greater => 22,
            Token::LessEqual => 23,
            Token::GreaterEqual => 24,
            Token::Equals => 25,
            Token::NotEquals => 26,
            Token::Comma => 27,
            Token::Colon => 28,
            Token::Semicolon => 29,
            Token::LeftParen => 30,
            Token::RightParen => 31,
            Token::LeftBrace => 32,
            Token::RightBrace => 33,
            Token::LeftBracket => 34,
            Token::RightBracket => 35,
            Token::Bind => 36,
            Token::Func => 37,
            Token::If => 38,
            Token::Else => 39,
            Token::Return => 40,
            Token::Include => 41,
            Token::Typeof => 42,
            Token::Loop => 43,
            Token::Break => 44,
            Token::Continue => 45,
        }
    }

    /// Whether two tokens are the same, text included.
    pub fn same(&self, other: &Token) -> (r: bool)
        ensures
            r == (self@ == other@),
    {
        match (self, other) {
            (Token::Ident(a), Token::Ident(b)) => same_text(a.as_str(), b.as_str()),
            (Token::Number(a), Token::Number(b)) => same_text(a.as_str(), b.as_str()),
            (Token::String(a), Token::String(b)) => same_text(a.as_str(), b.as_str()),
            (Token::Boolean(a), Token::Boolean(b)) => *a == *b,
            _ => self.code() == other.code(),
        }
    }

    /// The token as it is written in a message.
    pub fn text(&self) -> (r: String)
        ensures
            r@ == token_text(self@),
    {
        match self {
            Token::Ident(s) => {
                let mut r = String::from_str("Ident(\"");
                r.append(s.as_str());
                r.append("\")");
                r
            },
            Token::Number(s) => {
                let mut r = String::from_str("Number(");
                r.append(s.as_str());
                r.append(")");
                r
            },
            Token::String(s) => {
                let mut r = String::from_str("String(\"");
                r.append(s.as_str());
                r.append("\")");
                r
            },
            Token::Boolean(b) => if *b {
                String::from_str("Boolean(true)")
            } else {
                String::from_str("Boolean(false)")
            },
            Token::Eof => String::from_str("Eof"),
            Token::Illegal => String::from_str("Illegal"),
            Token::Comment => String::from_str("Comment"),
            Token::Assign => String::from_str("Assign"),
            Token::Plus => String::from_str("Plus"),
            Token::Minus => String::from_str("Minus"),
            Token::Bang => String::from_str("Bang"),
            Token::Asterisk => String::from_str("Asterisk"),
            Token::Slash => String::from_str("Slash"),
            Token::Percent => String::from_str("Percent"),
            Token::Anew => String::from_str("Anew"),
            Token::In => String::from_str("In"),
            Token::AND => String::from_str("AND"),
            Token::OR => String::from_str("OR"),
            Token::XOR => String::from_str("XOR"),
            Token::LeftShift => String::from_str("LeftShift"),
            Token::RightShift => String::from_str("RightShift"),
            Token::Less => String::from_str("Less"),
            Token::Greater => String::from_str("Greater"),
            Token::LessEqual => String::from_str("LessEqual"),
            Token::GreaterEqual => String::from_str("GreaterEqual"),
            Token::Equals => String::from_str("Equals"),
            Token::NotEquals => String::from_str("NotEquals"),
            Token::Comma => String::from_str("Comma"),
            Token::Colon => String::from_str("Colon"),
            Token::Semicolon => String::from_str("Semicolon"),
            Token::LeftParen => String::from_str("LeftParen"),
            Token::RightParen => String::from_str("RightParen"),
            Token::LeftBrace => String::from_str("LeftBrace"),
            Token::RightBrace => String::from_str("RightBrace"),
            Token::LeftBracket => String::from_str("LeftBracket"),
            Token::RightBracket => String::from_str("RightBracket"),
            Token::Bind => String::from_str("Set"),
            Token::Func => String::from_str("Func"),
            Token::If => String::from_str("If"),
            Token::Else => String::from_str("Else"),
            Token::Return => String::from_str("Return"),
            Token::Include => String::from_str("Include"),
            Token::Typeof => String::from_str("Typeof"),
            Token::Loop => String::from_str("Loop"),
            Token::Break => String::from_str("Break"),
            Token::Continue => String::from_str("Continue"),
        }
    }
}

} // verus!
