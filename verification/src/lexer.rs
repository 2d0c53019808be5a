//! The lexer: cuts a source text into tokens, one at a time.

use crate::token::{same_text, Token, TokenView};
use vstd::prelude::*;
use vstd::string::*;

verus! {

/// The character at `position`, or NUL past the end of the text.
pub open spec fn char_at(text: Seq<char>, position: nat) -> char {
    if position < text.len() {
        text[position as int]
    } else {
        '\0'
    }
}

/// The position after `position`, never past the end of the text.
pub open spec fn step_from(text: Seq<char>, position: nat) -> nat {
    if position < text.len() {
        position + 1
    } else {
        text.len()
    }
}

/// Letters of identifiers: the ASCII letters and the underscore.
pub open spec fn is_letter_spec(c: char) -> bool {
    ('a' <= c && c <= 'z') || ('A' <= c && c <= 'Z') || c == '_'
}

/// Characters of numerals: the ASCII digits and the point.
pub open spec fn is_numeral_char(c: char) -> bool {
    ('0' <= c && c <= '9') || c == '.'
}

/// Characters that separate tokens and are otherwise ignored.
pub open spec fn is_blank(c: char) -> bool {
    c == ' ' || c == '\t' || c == '\n' || c == '\r'
}

/// The first position at or after `position` that holds no blank.
pub open spec fn skip_blanks(text: Seq<char>, position: nat) -> nat
    decreases text.len() - position,
{
    if position < text.len() && is_blank(text[position as int]) {
        skip_blanks(text, position + 1)
    } else {
        position
    }
}

/// The first position at or after `position` that holds no letter.
pub open spec fn letters_end(text: Seq<char>, position: nat) -> nat
    decreases text.len() - position,
{
    if position < text.len() && is_letter_spec(text[position as int]) {
        letters_end(text, position + 1)
    } else {
        position
    }
}

/// The first position at or after `position` that holds no numeral character.
pub open spec fn numeral_end(text: Seq<char>, position: nat) -> nat
    decreases text.len() - position,
{
    if position < text.len() && is_numeral_char(text[position as int]) {
        numeral_end(text, position + 1)
    } else {
        position
    }
}

/// The first position at or after `position` that holds `stop` or NUL, or the
/// end of the text if there is none.
pub open spec fn scan_until(text: Seq<char>, position: nat, stop: char) -> nat
    decreases text.len() - position,
{
    if position < text.len() && text[position as int] != stop && text[position as int] != '\0' {
        scan_until(text, position + 1, stop)
    } else if position < text.len() {
        position
    } else {
        text.len()
    }
}

/// The keyword that a word stands for, if it is one.
pub open spec fn keyword(word: Seq<char>) -> Option<TokenView> {
    if word == "scratch"@ {
        Some(TokenView::Bind)
    } else if word == "amew"@ {
        Some(TokenView::Anew)
    } else if word == "pawction"@ {
        Some(TokenView::Func)
    } else if word == "purrhaps"@ {
        Some(TokenView::If)
    } else if word == "meowtually"@ {
        Some(TokenView::Else)
    } else if word == "tail"@ {
        Some(TokenView::Return)
    } else if word == "pawckage"@ {
        Some(TokenView::Include)
    } else if word == "purrfect"@ {
        Some(TokenView::Boolean(true))
    } else if word == "clawful"@ {
        Some(TokenView::Boolean(false))
    } else if word == "furreal"@ {
        Some(TokenView::Typeof)
    } else if word == "furrever"@ {
        Some(TokenView::Loop)
    } else if word == "hiss"@ {
        Some(TokenView::Break)
    } else if word == "continue"@ {
        Some(TokenView::Continue)
    } else {
        None
    }
}

/// The token that a word gives: its keyword, or else an identifier.
pub open spec fn word_token(word: Seq<char>) -> TokenView {
    match keyword(word) {
        Some(t) => t,
        None => TokenView::Ident(word),
    }
}

/// The token that starts at `start`, where no blank stands, and the position
/// after it.
pub open spec fn token_at(text: Seq<char>, start: nat) -> (TokenView, nat) {
    let c = char_at(text, start);
    let d = char_at(text, start + 1);
    let one = step_from(text, start);
    let two = step_from(text, one);
    if c == '=' {
        if d == '=' {
            (TokenView::Equals, two)
        } else {
            (TokenView::Assign, one)
        }
    } else if c == ';' {
        (TokenView::Semicolon, one)
    } else if c == ':' {
        (TokenView::Colon, one)
    } else if c == ',' {
        (TokenView::Comma, one)
    } else if c == '+' {
        (TokenView::Plus, one)
    } else if c == '-' {
        (TokenView::Minus, one)
    } else if c == '&' {
        (TokenView::AND, one)
    } else if c == '|' {
        (TokenView::OR, one)
    } else if c == '^' {
        (TokenView::XOR, one)
    } else if c == '%' {
        (TokenView::Percent, one)
    } else if c == '!' {
        if d == '=' {
            (TokenView::NotEquals, two)
        } else {
            (TokenView::Bang, one)
        }
    } else if c == '~' {
        (TokenView::In, one)
    } else if c == '(' {
        (TokenView::LeftParen, one)
    } else if c == ')' {
        (TokenView::RightParen, one)
    } else if c == '{' {
        (TokenView::LeftBrace, one)
    } else if c == '}' {
        (TokenView::RightBrace, one)
    } else if c == '[' {
        (TokenView::LeftBracket, one)
    } else if c == ']' {
        (TokenView::RightBracket, one)
    } else if c == '*' {
        (TokenView::Asterisk, one)
    } else if c == '/' {
        if d == '/' {
            (TokenView::Comment, step_from(text, scan_until(text, one, '\n')))
        } else {
            (TokenView::Slash, one)
        }
    } else if c == '<' {
        if d == '<' {
            (TokenView::LeftShift, two)
        } else if d == '=' {
            (TokenView::LessEqual, two)
        } else {
            (TokenView::Less, one)
        }
    } else if c == '>' {
        if d == '>' {
            (TokenView::RightShift, two)
        } else if d == '=' {
            (TokenView::GreaterEqual, two)
        } else {
            (TokenView::Greater, one)
        }
    } else if c == '"' {
        let close = scan_until(text, one, '"');
        (TokenView::String(text.subrange(one as int, close as int)), step_from(text, close))
    } else if c == '\0' {
        (TokenView::Eof, one)
    } else if is_letter_spec(c) {
        let end = letters_end(text, start);
        (word_token(text.subrange(start as int, end as int)), end)
    } else if '0' <= c && c <= '9' {
        let end = numeral_end(text, start);
        (TokenView::Number(text.subrange(start as int, end as int)), end)
    } else {
        (TokenView::Illegal, one)
    }
}

/// The next token at or after `position`, and the position after it.
pub open spec fn next_token_spec(text: Seq<char>, position: nat) -> (TokenView, nat) {
    token_at(text, skip_blanks(text, position))
}

/// Skipping blanks moves on, and not past the end.
pub proof fn lemma_skip_blanks_bounds(text: Seq<char>, position: nat)
    requires
        position <= text.len(),
    ensures
        position <= skip_blanks(text, position) <= text.len(),
    decreases text.len() - position,
{
    if position < text.len() && is_blank(text[position as int]) {
        lemma_skip_blanks_bounds(text, position + 1);
    }
}

/// A run of letters ends at or after its start, and not past the end.
pub proof fn lemma_letters_end_bounds(text: Seq<char>, position: nat)
    requires
        position <= text.len(),
    ensures
        position <= letters_end(text, position) <= text.len(),
    decreases text.len() - position,
{
    if position < text.len() && is_letter_spec(text[position as int]) {
        lemma_letters_end_bounds(text, position + 1);
    }
}

/// A numeral ends at or after its start, and not past the end.
pub proof fn lemma_numeral_end_bounds(text: Seq<char>, position: nat)
    requires
        position <= text.len(),
    ensures
        position <= numeral_end(text, position) <= text.len(),
    decreases text.len() - position,
{
    if position < text.len() && is_numeral_char(text[position as int]) {
        lemma_numeral_end_bounds(text, position + 1);
    }
}

/// A scan ends at or after its start, and not past the end.
pub proof fn lemma_scan_until_bounds(text: Seq<char>, position: nat, stop: char)
    requires
        position <= text.len(),
    ensures
        position <= scan_until(text, position, stop) <= text.len(),
    decreases text.len() - position,
{
    if position < text.len() && text[position as int] != stop && text[position as int] != '\0' {
        lemma_scan_until_bounds(text, position + 1, stop);
    }
}

/// The tokens of a text from `position` on, up to the first end marker.
pub open spec fn tokens_from(text: Seq<char>, position: nat) -> Seq<TokenView>
    decreases text.len() - position,
{
    let (token, after) = next_token_spec(text, position);
    if token == TokenView::Eof || after <= position || after > text.len() {
        Seq::empty()
    } else {
        seq![token] + tokens_from(text, after)
    }
}

/// A token other than the end marker takes at least one character, and no
/// token ends behind the text.
pub proof fn lemma_token_advances(text: Seq<char>, position: nat)
    requires
        position <= text.len(),
    ensures
        next_token_spec(text, position).1 <= text.len(),
        next_token_spec(text, position).0 != TokenView::Eof ==> next_token_spec(
            text,
            position,
        ).1 > position,
{
    lemma_skip_blanks_bounds(text, position);
    let start = skip_blanks(text, position);
    let one = step_from(text, start);
    lemma_scan_until_bounds(text, one, '\n');
    lemma_scan_until_bounds(text, one, '"');
    lemma_letters_end_bounds(text, start);
    lemma_numeral_end_bounds(text, start);
    if start < text.len() {
        lemma_letters_end_bounds(text, start + 1);
        lemma_numeral_end_bounds(text, start + 1);
    }
    lemma_keyword_is_no_end_marker(text.subrange(start as int, letters_end(text, start) as int));
}

/// No word gives the end marker.
pub proof fn lemma_keyword_is_no_end_marker(word: Seq<char>)
    ensures
        word_token(word) != TokenView::Eof,
{
}

/// At the end of the text the next token is the end marker, and the cursor
/// stays: every further call gives the end marker again.
pub proof fn law_end_marker_repeats(text: Seq<char>)
    ensures
        next_token_spec(text, text.len()) == (TokenView::Eof, text.len()),
{
}

/// Whether `c` may stand in an identifier.
pub fn is_letter(c: char) -> (r: bool)
    ensures
        r == is_letter_spec(c),
{
    ('a' <= c && c <= 'z') || ('A' <= c && c <= 'Z') || c == '_'
}

/// Looks a word up among the keywords.
pub fn find_indentifier(ident: &str) -> (r: Option<Token>)
    ensures
        match r {
            Some(t) => keyword(ident@) == Some(t@),
            None => keyword(ident@).is_none(),
        },
{
    if same_text(ident, "scratch") {
        Some(Token::Bind)
    } else if same_text(ident, "amew") {
        Some(Token::Anew)
    } else if same_text(ident, "pawction") {
        Some(Token::Func)
    } else if same_text(ident, "purrhaps") {
        Some(Token::If)
    } else if same_text(ident, "meowtually") {
        Some(Token::Else)
    } else if same_text(ident, "tail") {
        Some(Token::Return)
    } else if same_text(ident, "pawckage") {
        Some(Token::Include)
    } else if same_text(ident, "purrfect") {
        Some(Token::Boolean(true))
    } else if same_text(ident, "clawful") {
        Some(Token::Boolean(false))
    } else if same_text(ident, "furreal") {
        Some(Token::Typeof)
    } else if same_text(ident, "furrever") {
        Some(Token::Loop)
    } else if same_text(ident, "hiss") {
        Some(Token::Break)
    } else if same_text(ident, "continue") {
        Some(Token::Continue)
    } else {
        None
    }
}

/// A cursor over a source text.
pub struct Lexer {
    input: String,
    len: usize,
    position: usize,
}

impl Lexer {
    #[verifier::type_invariant]
    spec fn well_formed(&self) -> bool {
        &&& self.len == self.input@.len()
        &&& self.position <= self.len
    }

    /// The source text.
    pub closed spec fn text(&self) -> Seq<char> {
        self.input@
    }

    /// The position of the character under the cursor; the length of the
    /// text once the cursor has run off its end.
    pub closed spec fn cursor(&self) -> nat {
        self.position as nat
    }

    /// A lexer at the start of `input`.
    pub fn new(input: String) -> (lexer: Lexer)
        ensures
            lexer.text() == input@,
            lexer.cursor() == 0,
    {
        let len = input.as_str().unicode_len();
        Lexer { input, len, position: 0 }
    }

    /// The character under the cursor, NUL at the end of the text.
    pub fn current_char(&self) -> (c: char)
        ensures
            c == char_at(self.text(), self.cursor()),
            self.cursor() <= self.text().len(),
    {
        proof {
            use_type_invariant(self);
        }
        if self.position < self.len {
            self.input.as_str().get_char(self.position)
        } else {
            '\0'
        }
    }

    /// Moves the cursor one character on; at the end of the text it stays.
    pub fn read_char(&mut self)
        ensures
            final(self).text() == old(self).text(),
            final(self).cursor() == step_from(old(self).text(), old(self).cursor()),
            final(self).cursor() <= final(self).text().len(),
    {
        proof {
            use_type_invariant(&*self);
        }
        if self.position < self.len {
            self.position = self.position + 1;
        }
    }

    /// The text between two positions.
    fn slice(&self, from: usize, to: usize) -> (r: String)
        requires
            from <= to <= self.text().len(),
        ensures
            r@ == self.text().subrange(from as int, to as int),
    {
        self.input.as_str().substring_char(from, to).to_owned()
    }

    /// Reads the run of letters under the cursor and leaves the cursor
    /// behind it.
    fn read_identifier(&mut self) -> (r: String)
        ensures
            final(self).text() == old(self).text(),
            final(self).cursor() == letters_end(old(self).text(), old(self).cursor()),
            old(self).cursor() <= final(self).cursor() <= final(self).text().len(),
            r@ == old(self).text().subrange(old(self).cursor() as int, final(self).cursor() as int),
    {
        proof {
            use_type_invariant(&*self);
        }
        let pos: usize = self.position;
        while is_letter(self.current_char())
            invariant
                self.text() == old(self).text(),
                pos <= self.position <= self.text().len(),
                letters_end(self.text(), self.cursor()) == letters_end(
                    old(self).text(),
                    pos as nat,
                ),
                pos == old(self).position,
            decreases self.text().len() - self.cursor(),
        {
            self.read_char();
        }
        self.slice(pos, self.position)
    }

    /// Reads the run of digits and points under the cursor and leaves the
    /// cursor behind it. The numeral is handed on as it was written.
    fn read_number(&mut self) -> (r: String)
        ensures
            final(self).text() == old(self).text(),
            final(self).cursor() == numeral_end(old(self).text(), old(self).cursor()),
            old(self).cursor() <= final(self).cursor() <= final(self).text().len(),
            r@ == old(self).text().subrange(old(self).cursor() as int, final(self).cursor() as int),
    {
        proof {
            use_type_invariant(&*self);
        }
        let pos: usize = self.position;
        loop
            invariant
                self.text() == old(self).text(),
                pos <= self.position <= self.text().len(),
                numeral_end(self.text(), self.cursor()) == numeral_end(
                    old(self).text(),
                    pos as nat,
                ),
                pos == old(self).position,
            ensures
                self.text() == old(self).text(),
                pos <= self.position <= self.text().len(),
                self.cursor() == numeral_end(old(self).text(), pos as nat),
            decreases self.text().len() - self.cursor(),
        {
            let c = self.current_char();
            if !(('0' <= c && c <= '9') || c == '.') {
                break;
            }
            self.read_char();
        }
        self.slice(pos, self.position)
    }

    /// Moves the cursor on until it stands on `stop`, on NUL or at the end.
    fn scan_to(&mut self, stop: char)
        ensures
            final(self).text() == old(self).text(),
            final(self).cursor() == scan_until(old(self).text(), old(self).cursor(), stop),
            old(self).cursor() <= final(self).cursor() <= final(self).text().len(),
    {
        proof {
            use_type_invariant(&*self);
        }
        loop
            invariant
                self.text() == old(self).text(),
                old(self).position <= self.position <= self.text().len(),
                scan_until(self.text(), self.cursor(), stop) == scan_until(
                    old(self).text(),
                    old(self).cursor(),
                    stop,
                ),
            ensures
                self.text() == old(self).text(),
                old(self).position <= self.position <= self.text().len(),
                self.cursor() == scan_until(old(self).text(), old(self).cursor(), stop),
            decreases self.text().len() - self.cursor(),
        {
            let c = self.current_char();
            if c == stop || c == '\0' {
                break;
            }
            self.read_char();
        }
    }

    /// Reads a string whose opening quote is under the cursor: the text up to
    /// the next quote, NUL or the end. The cursor is left where the text ends.
    fn read_string(&mut self) -> (r: String)
        ensures
            final(self).text() == old(self).text(),
            final(self).cursor() == scan_until(
                old(self).text(),
                step_from(old(self).text(), old(self).cursor()),
                '"',
            ),
            final(self).cursor() <= final(self).text().len(),
            r@ == old(self).text().subrange(
                step_from(old(self).text(), old(self).cursor()) as int,
                final(self).cursor() as int,
            ),
    {
        self.read_char();
        let pos: usize = self.position;
        self.scan_to('"');
        self.slice(pos, self.position)
    }

    /// Reads a comment that starts under the cursor: the text up to the end
    /// of the line. The cursor is left on the line break, on NUL or at the end.
    pub fn read_comment(&mut self) -> (r: String)
        ensures
            final(self).text() == old(self).text(),
            final(self).cursor() == scan_until(
                old(self).text(),
                step_from(old(self).text(), old(self).cursor()),
                '\n',
            ),
            final(self).cursor() <= final(self).text().len(),
            r@ == old(self).text().subrange(
                old(self).cursor() as int,
                final(self).cursor() as int,
            ),
    {
        proof {
            use_type_invariant(&*self);
        }
        let pos: usize = self.position;
        self.read_char();
        self.scan_to('\n');
        self.slice(pos, self.position)
    }

    /// Moves the cursor past blanks.
    fn skip_whitespace(&mut self)
        ensures
            final(self).text() == old(self).text(),
            final(self).cursor() == skip_blanks(old(self).text(), old(self).cursor()),
            old(self).cursor() <= final(self).cursor() <= final(self).text().len(),
    {
        proof {
            use_type_invariant(&*self);
        }
        loop
            invariant
                self.text() == old(self).text(),
                old(self).position <= self.position <= self.text().len(),
                skip_blanks(self.text(), self.cursor()) == skip_blanks(
                    old(self).text(),
                    old(self).cursor(),
                ),
            ensures
                self.text() == old(self).text(),
                old(self).position <= self.position <= self.text().len(),
                self.cursor() == skip_blanks(old(self).text(), old(self).cursor()),
            decreases self.text().len() - self.cursor(),
        {
            let c = self.current_char();
            if !(c == ' ' || c == '\t' || c == '\n' || c == '\r') {
                break;
            }
            self.read_char();
        }
    }

    /// The character after the one under the cursor, NUL if there is none.
    fn peek_char(&self) -> (c: char)
        ensures
            c == char_at(self.text(), self.cursor() + 1),
    {
        proof {
            use_type_invariant(self);
        }
        if self.position < self.len && self.position + 1 < self.len {
            self.input.as_str().get_char(self.position + 1)
        } else {
            '\0'
        }
    }

    /// Moves the cursor over a token of two characters and returns `token`.
    fn two_chars(&mut self, token: Token) -> (r: Token)
        ensures
            r == token,
            final(self).text() == old(self).text(),
            final(self).cursor() == step_from(
                old(self).text(),
                step_from(old(self).text(), old(self).cursor()),
            ),
    {
        self.read_char();
        self.read_char();
        token
    }

    /// Moves the cursor over a token of one character and returns `token`.
    fn one_char(&mut self, token: Token) -> (r: Token)
        ensures
            r == token,
            final(self).text() == old(self).text(),
            final(self).cursor() == step_from(old(self).text(), old(self).cursor()),
    {
        self.read_char();
        token
    }

    /// The next token of the text. Blanks before it are skipped, and the
    /// cursor is left behind it. At the end of the text every call returns the
    /// end marker.
    pub fn next_token(&mut self) -> (token: Token)
        ensures
            final(self).text() == old(self).text(),
            (token@, final(self).cursor()) == next_token_spec(
                old(self).text(),
                old(self).cursor(),
            ),
            old(self).cursor() <= old(self).text().len(),
            final(self).cursor() <= final(self).text().len(),
    {
        proof {
            use_type_invariant(&*self);
            lemma_token_advances(self.text(), self.cursor());
        }
        self.skip_whitespace();
        let c = self.current_char();
        let d = self.peek_char();
        if c == '=' {
            if d == '=' {
                self.two_chars(Token::Equals)
            } else {
                self.one_char(Token::Assign)
            }
        } else if c == ';' {
            self.one_char(Token::Semicolon)
        } else if c == ':' {
            self.one_char(Token::Colon)
        } else if c == ',' {
            self.one_char(Token::Comma)
        } else if c == '+' {
            self.one_char(Token::Plus)
        } else if c == '-' {
            self.one_char(Token::Minus)
        } else if c == '&' {
            self.one_char(Token::AND)
        } else if c == '|' {
            self.one_char(Token::OR)
        } else if c == '^' {
            self.one_char(Token::XOR)
        } else if c == '%' {
            self.one_char(Token::Percent)
        } else if c == '!' {
            if d == '=' {
                self.two_chars(Token::NotEquals)
            } else {
                self.one_char(Token::Bang)
            }
        } else if c == '~' {
            self.one_char(Token::In)
        } else if c == '(' {
            self.one_char(Token::LeftParen)
        } else if c == ')' {
            self.one_char(Token::RightParen)
        } else if c == '{' {
            self.one_char(Token::LeftBrace)
        } else if c == '}' {
            self.one_char(Token::RightBrace)
        } else if c == '[' {
            self.one_char(Token::LeftBracket)
        } else if c == ']' {
            self.one_char(Token::RightBracket)
        } else if c == '*' {
            self.one_char(Token::Asterisk)
        } else if c == '/' {
            if d == '/' {
                let _ = self.read_comment();
                self.one_char(Token::Comment)
            } else {
                self.one_char(Token::Slash)
            }
        } else if c == '<' {
            if d == '<' {
                self.two_chars(Token::LeftShift)
            } else if d == '=' {
                self.two_chars(Token::LessEqual)
            } else {
                self.one_char(Token::Less)
            }
        } else if c == '>' {
            if d == '>' {
                self.two_chars(Token::RightShift)
            } else if d == '=' {
                self.two_chars(Token::GreaterEqual)
            } else {
                self.one_char(Token::Greater)
            }
        } else if c == '"' {
            let text = self.read_string();
            self.one_char(Token::String(text))
        } else if c == '\0' {
            self.one_char(Token::Eof)
        } else if is_letter(c) {
            let word = self.read_identifier();
            match find_indentifier(word.as_str()) {
                Some(t) => t,
                None => Token::Ident(word),
            }
        } else if '0' <= c && c <= '9' {
            let numeral = self.read_number();
            Token::Number(numeral)
        } else {
            self.one_char(Token::Illegal)
        }
    }
}

} // verus!
