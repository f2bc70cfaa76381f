//! A hand-written lexer for a small scripting language: one token per call,
//! with single- and double-character operators, strings with `${name}`
//! interpolation, numbers, identifiers and keywords.
use crate::text::{chars_vec, str_eq, string_from_chars};
use vstd::prelude::*;

verus! {

/// The kinds of token the scanner produces.
#[derive(Clone, Copy, Debug, PartialEq, Eq, Structural)]
pub enum TokenType {
    LeftParen,
    RightParen,
    LeftBrace,
    RightBrace,
    Comma,
    Minus,
    Plus,
    RightShift,
    LeftShift,
    Semicolon,
    Slash,
    Star,
    Bang,
    BangEqual,
    Equal,
    EqualEqual,
    Greater,
    GreaterEqual,
    Less,
    LessEqual,
    Identifier,
    Str,
    Number,
    And,
    Else,
    False,
    Fun,
    If,
    Noth,
    For,
    Print,
    Return,
    Or,
    Var,
    While,
    True,
    Error,
    Eof,
}

/// One token: its kind, the slice of source it covers, and its line.
#[derive(Debug)]
pub struct Token {
    pub token_type: TokenType,
    pub lexeme: String,
    pub line: usize,
}

/// Whether the character is an ASCII digit.
pub open spec fn digit_char(c: char) -> bool {
    48 <= c as u32 <= 57
}

/// Whether the character is an ASCII letter.
pub open spec fn alpha_char(c: char) -> bool {
    65 <= c as u32 <= 90 || 97 <= c as u32 <= 122
}

/// The token type of a keyword, or nothing for an ordinary word.
pub open spec fn keyword_kind(w: Seq<char>) -> Option<TokenType> {
    if w == "if"@ {
        Some(TokenType::If)
    } else if w == "else"@ {
        Some(TokenType::Else)
    } else if w == "for"@ {
        Some(TokenType::For)
    } else if w == "while"@ {
        Some(TokenType::While)
    } else if w == "and"@ {
        Some(TokenType::And)
    } else if w == "or"@ {
        Some(TokenType::Or)
    } else if w == "true"@ {
        Some(TokenType::True)
    } else if w == "false"@ {
        Some(TokenType::False)
    } else if w == "noth"@ {
        Some(TokenType::Noth)
    } else if w == "fun"@ {
        Some(TokenType::Fun)
    } else if w == "var"@ {
        Some(TokenType::Var)
    } else if w == "print"@ {
        Some(TokenType::Print)
    } else if w == "return"@ {
        Some(TokenType::Return)
    } else {
        None
    }
}

/// The token type a word is scanned as: its keyword type, or an identifier.
pub open spec fn word_kind(w: Seq<char>) -> TokenType {
    match keyword_kind(w) {
        Some(k) => k,
        None => TokenType::Identifier,
    }
}

/// Which token type a token covering `src[start..end]` has, decided by its
/// leading characters: operators by their first one or two characters,
/// strings by the opening quote — terminated ones scan as strings, the rest
/// as errors — numbers by a leading digit, words by the keyword table, and
/// anything else as an error.
pub open spec fn token_kind_of(src: Seq<char>, start: int, end: int, ty: TokenType) -> bool {
    let c = src[start];
    if c == '+' {
        ty is Plus
    } else if c == '-' {
        ty is Minus
    } else if c == '*' {
        ty is Star
    } else if c == '/' {
        ty is Slash
    } else if c == '(' {
        ty is LeftParen
    } else if c == ')' {
        ty is RightParen
    } else if c == '{' {
        ty is LeftBrace
    } else if c == '}' {
        ty is RightBrace
    } else if c == ',' {
        ty is Comma
    } else if c == ';' {
        ty is Semicolon
    } else if c == '=' {
        if end - start == 2 {
            ty is EqualEqual
        } else {
            ty is Equal
        }
    } else if c == '!' {
        if end - start == 2 {
            ty is BangEqual
        } else {
            ty is Bang
        }
    } else if c == '<' {
        if end - start == 2 {
            if src[start + 1] == '=' {
                ty is LessEqual
            } else if src[start + 1] == '<' {
                ty is LeftShift
            } else {
                ty is Less
            }
        } else {
            ty is Less
        }
    } else if c == '>' {
        if end - start == 2 {
            if src[start + 1] == '=' {
                ty is GreaterEqual
            } else if src[start + 1] == '>' {
                ty is RightShift
            } else {
                ty is Greater
            }
        } else {
            ty is Greater
        }
    } else if c == '"' {
        ty is Str || ty is Error
    } else if digit_char(c) {
        ty is Number
    } else if alpha_char(c) {
        ty == word_kind(src.subrange(start, end))
    } else {
        ty is Error
    }
}

/// A cursor over the source: `start` opens the token being scanned and
/// `current` is the next unread character.
pub struct Scanner {
    source: Vec<char>,
    start: usize,
    current: usize,
    line: usize,
    keywords: Vec<(String, TokenType)>,
}

impl Scanner {
    /// The characters being scanned.
    pub closed spec fn src(&self) -> Seq<char> {
        self.source@
    }

    /// The position of the next unread character.
    pub closed spec fn pos(&self) -> int {
        self.current as int
    }

    /// Where the token being scanned starts.
    pub closed spec fn tok_start(&self) -> int {
        self.start as int
    }

    /// The current line, counted from one.
    pub closed spec fn cur_line(&self) -> int {
        self.line as int
    }

    /// The cursor stays inside the source and behind the token start, and
    /// the keyword table holds exactly the thirteen keywords.
    pub closed spec fn wf(&self) -> bool {
        &&& 0 <= self.tok_start() <= self.pos() <= self.src().len()
        &&& self.cur_line() >= 1
        &&& self.keywords@.len() == 13
        &&& self.keywords@[0].0@ == "if"@ && self.keywords@[0].1 == TokenType::If
        &&& self.keywords@[1].0@ == "else"@ && self.keywords@[1].1 == TokenType::Else
        &&& self.keywords@[2].0@ == "for"@ && self.keywords@[2].1 == TokenType::For
        &&& self.keywords@[3].0@ == "while"@ && self.keywords@[3].1 == TokenType::While
        &&& self.keywords@[4].0@ == "and"@ && self.keywords@[4].1 == TokenType::And
        &&& self.keywords@[5].0@ == "or"@ && self.keywords@[5].1 == TokenType::Or
        &&& self.keywords@[6].0@ == "true"@ && self.keywords@[6].1 == TokenType::True
        &&& self.keywords@[7].0@ == "false"@ && self.keywords@[7].1 == TokenType::False
        &&& self.keywords@[8].0@ == "noth"@ && self.keywords@[8].1 == TokenType::Noth
        &&& self.keywords@[9].0@ == "fun"@ && self.keywords@[9].1 == TokenType::Fun
        &&& self.keywords@[10].0@ == "var"@ && self.keywords@[10].1 == TokenType::Var
        &&& self.keywords@[11].0@ == "print"@ && self.keywords@[11].1 == TokenType::Print
        &&& self.keywords@[12].0@ == "return"@ && self.keywords@[12].1 == TokenType::Return
    }

    /// A scanner at the start of `source`, with the keyword table filled.
    pub fn new(source: String) -> (r: Scanner)
        ensures
            r.wf(),
            r.src() == source@,
            r.pos() == 0,
            r.tok_start() == 0,
            r.cur_line() == 1,
    {
        let mut keywords: Vec<(String, TokenType)> = Vec::new();
        keywords.push((String::from_str("if"), TokenType::If));
        keywords.push((String::from_str("else"), TokenType::Else));
        keywords.push((String::from_str("for"), TokenType::For));
        keywords.push((String::from_str("while"), TokenType::While));
        keywords.push((String::from_str("and"), TokenType::And));
        keywords.push((String::from_str("or"), TokenType::Or));
        keywords.push((String::from_str("true"), TokenType::True));
        keywords.push((String::from_str("false"), TokenType::False));
        keywords.push((String::from_str("noth"), TokenType::Noth));
        keywords.push((String::from_str("fun"), TokenType::Fun));
        keywords.push((String::from_str("var"), TokenType::Var));
        keywords.push((String::from_str("print"), TokenType::Print));
        keywords.push((String::from_str("return"), TokenType::Return));
        Scanner { source: chars_vec(source.as_str()), start: 0, current: 0, line: 1, keywords }
    }

    /// The next token. Blank space and one line comment are skipped first;
    /// the token then covers exactly the characters between the new start and
    /// the new position, and an end-of-input token is produced exactly when
    /// no character is left after the skipping.
    pub fn scan_token(&mut self) -> (t: Token)
        requires
            old(self).wf(),
        ensures
            final(self).wf(),
            final(self).src() == old(self).src(),
            final(self).tok_start() >= old(self).pos(),
            final(self).cur_line() >= old(self).cur_line(),
            0 <= final(self).tok_start() <= final(self).pos() <= final(self).src().len(),
            t.lexeme@ == final(self).src().subrange(final(self).tok_start(), final(self).pos()),
            t.line as int == final(self).cur_line(),
            t.token_type is Eof <==> final(self).tok_start() == final(self).src().len(),
            !(t.token_type is Eof) ==> final(self).pos() > final(self).tok_start(),
            !(t.token_type is Eof) ==> token_kind_of(
                final(self).src(),
                final(self).tok_start(),
                final(self).pos(),
                t.token_type,
            ),
    {
        self.skip_whitespace();
        self.start = self.current;

        if self.is_at_end() {
            return self.make_token(TokenType::Eof);
        }
        let c = self.advance();

        match c {
            '+' => self.make_token(TokenType::Plus),
            '-' => self.make_token(TokenType::Minus),
            '*' => self.make_token(TokenType::Star),
            '/' => self.make_token(TokenType::Slash),
            '(' => self.make_token(TokenType::LeftParen),
            ')' => self.make_token(TokenType::RightParen),
            '{' => self.make_token(TokenType::LeftBrace),
            '}' => self.make_token(TokenType::RightBrace),
            ',' => self.make_token(TokenType::Comma),
            ';' => self.make_token(TokenType::Semicolon),
            '"' => self.string(),
            '=' => {
                let exp = self.match_char('=');
                if exp {
                    self.make_token(TokenType::EqualEqual)
                } else {
                    self.make_token(TokenType::Equal)
                }
            },
            '!' => {
                let exp = self.match_char('=');
                if exp {
                    self.make_token(TokenType::BangEqual)
                } else {
                    self.make_token(TokenType::Bang)
                }
            },
            '<' => {
                if self.is_at_end() {
                    return self.make_token(TokenType::Less);
                }
                let exp = self.advance();
                match exp {
                    '=' => self.make_token(TokenType::LessEqual),
                    '<' => self.make_token(TokenType::LeftShift),
                    _ => self.make_token(TokenType::Less),
                }
            },
            '>' => {
                if self.is_at_end() {
                    return self.make_token(TokenType::Greater);
                }
                let exp = self.advance();
                match exp {
                    '=' => self.make_token(TokenType::GreaterEqual),
                    '>' => self.make_token(TokenType::RightShift),
                    _ => self.make_token(TokenType::Greater),
                }
            },
            _ => {
                if is_digit(c) {
                    self.numbers()
                } else if is_alpha(c) {
                    self.identifier()
                } else {
                    self.make_token(TokenType::Error)
                }
            },
        }
    }

    /// Whether every character has been read.
    fn is_at_end(&self) -> (r: bool)
        ensures
            r == (self.pos() >= self.src().len()),
    {
        self.current >= self.source.len()
    }

    /// Reads one character and moves past it.
    fn advance(&mut self) -> (c: char)
        requires
            old(self).wf(),
            old(self).pos() < old(self).src().len(),
        ensures
            final(self).wf(),
            c == old(self).src()[old(self).pos()],
            final(self).pos() == old(self).pos() + 1,
            final(self).src() == old(self).src(),
            final(self).tok_start() == old(self).tok_start(),
            final(self).cur_line() == old(self).cur_line(),
    {
        let n = self.source.len();
        let c = self.source[self.current];
        proof {
            assert(self.current < n);
        }
        self.current = self.current + 1;
        c
    }

    /// Moves past the next character exactly when it equals `expected`.
    fn match_char(&mut self, expected: char) -> (r: bool)
        requires
            old(self).wf(),
        ensures
            final(self).wf(),
            final(self).src() == old(self).src(),
            final(self).tok_start() == old(self).tok_start(),
            final(self).cur_line() == old(self).cur_line(),
            r == (old(self).pos() < old(self).src().len() && old(self).src()[old(self).pos()]
                == expected),
            r ==> final(self).pos() == old(self).pos() + 1,
            !r ==> final(self).pos() == old(self).pos(),
    {
        if self.is_at_end() {
            return false;
        }
        let n = self.source.len();
        if self.source[self.current] != expected {
            return false;
        }
        proof {
            assert(self.current < n);
        }
        self.current = self.current + 1;
        true
    }

    /// Scans to the closing quote of a string, checking embedded `${name}`
    /// interpolations on the way; an unterminated string or a malformed
    /// interpolation is an error token.
    fn string(&mut self) -> (t: Token)
        requires
            old(self).wf(),
        ensures
            final(self).wf(),
            final(self).src() == old(self).src(),
            final(self).tok_start() == old(self).tok_start(),
            final(self).pos() >= old(self).pos(),
            final(self).cur_line() >= old(self).cur_line(),
            t.lexeme@ == final(self).src().subrange(final(self).tok_start(), final(self).pos()),
            t.line as int == final(self).cur_line(),
            t.token_type is Str || t.token_type is Error,
    {
        while self.current < self.source.len()
            invariant
                self.wf(),
                self.src() == old(self).src(),
                self.tok_start() == old(self).tok_start(),
                self.pos() >= old(self).pos(),
                self.cur_line() >= old(self).cur_line(),
            decreases self.src().len() - self.pos(),
        {
            let c = self.source[self.current];
            if c == '"' {
                let _ = self.advance();
                return self.make_token(TokenType::Str);
            }
            if c == '$' {
                let _ = self.advance();
                if self.match_char('{') {
                    let _ = self.identifier();
                }
                if self.is_at_end() {
                    return self.make_token(TokenType::Error);
                }
                if self.advance() != '}' {
                    return self.make_token(TokenType::Error);
                }
            } else {
                if c == '\n' {
                    if self.line < usize::MAX {
                        self.line = self.line + 1;
                    }
                }
                let _ = self.advance();
            }
        }
        self.make_token(TokenType::Error)
    }

    /// Scans the remaining digits of a number, with one optional fractional
    /// part.
    fn numbers(&mut self) -> (t: Token)
        requires
            old(self).wf(),
        ensures
            final(self).wf(),
            final(self).src() == old(self).src(),
            final(self).tok_start() == old(self).tok_start(),
            final(self).pos() >= old(self).pos(),
            final(self).cur_line() == old(self).cur_line(),
            t.lexeme@ == final(self).src().subrange(final(self).tok_start(), final(self).pos()),
            t.line as int == final(self).cur_line(),
            t.token_type is Number,
    {
        self.eat_digits();
        if self.current < self.source.len() && self.source[self.current] == '.' {
            if self.current + 1 < self.source.len() && is_digit(self.source[self.current + 1]) {
                let _ = self.advance();
                self.eat_digits();
            }
        }
        self.make_token(TokenType::Number)
    }

    /// Moves past a run of digits.
    fn eat_digits(&mut self)
        requires
            old(self).wf(),
        ensures
            final(self).wf(),
            final(self).src() == old(self).src(),
            final(self).tok_start() == old(self).tok_start(),
            final(self).pos() >= old(self).pos(),
            final(self).cur_line() == old(self).cur_line(),
    {
        while self.current < self.source.len() && is_digit(self.source[self.current])
            invariant
                self.wf(),
                self.src() == old(self).src(),
                self.tok_start() == old(self).tok_start(),
                self.pos() >= old(self).pos(),
                self.cur_line() == old(self).cur_line(),
            decreases self.src().len() - self.pos(),
        {
            let _ = self.advance();
        }
    }

    /// Scans the rest of an identifier and classifies it against the keyword
    /// table.
    fn identifier(&mut self) -> (t: Token)
        requires
            old(self).wf(),
        ensures
            final(self).wf(),
            final(self).src() == old(self).src(),
            final(self).tok_start() == old(self).tok_start(),
            final(self).pos() >= old(self).pos(),
            final(self).cur_line() == old(self).cur_line(),
            t.lexeme@ == final(self).src().subrange(final(self).tok_start(), final(self).pos()),
            t.line as int == final(self).cur_line(),
            t.token_type == word_kind(
                final(self).src().subrange(final(self).tok_start(), final(self).pos()),
            ),
    {
        while self.current < self.source.len() && (is_alpha(self.source[self.current])
            || self.source[self.current] == '_')
            invariant
                self.wf(),
                self.src() == old(self).src(),
                self.tok_start() == old(self).tok_start(),
                self.pos() >= old(self).pos(),
                self.cur_line() == old(self).cur_line(),
            decreases self.src().len() - self.pos(),
        {
            let _ = self.advance();
        }
        let text = self.lexeme_chars();
        let text_str = string_from_chars(&text);
        proof {
            reveal_strlit("if");
            reveal_strlit("else");
            reveal_strlit("for");
            reveal_strlit("while");
            reveal_strlit("and");
            reveal_strlit("or");
            reveal_strlit("true");
            reveal_strlit("false");
            reveal_strlit("noth");
            reveal_strlit("fun");
            reveal_strlit("var");
            reveal_strlit("print");
            reveal_strlit("return");
            assert("if"@[0] != "or"@[0]);
            assert("for"@[0] != "and"@[0]);
            assert("for"@[1] != "fun"@[1]);
            assert("for"@[0] != "var"@[0]);
            assert("and"@[0] != "fun"@[0]);
            assert("and"@[0] != "var"@[0]);
            assert("fun"@[0] != "var"@[0]);
            assert("else"@[0] != "true"@[0]);
            assert("else"@[0] != "noth"@[0]);
            assert("true"@[0] != "noth"@[0]);
            assert("while"@[0] != "false"@[0]);
            assert("while"@[0] != "print"@[0]);
            assert("false"@[0] != "print"@[0]);
        }
        let n = self.keywords.len();
        let mut i: usize = 0;
        while i < n
            invariant
                n == self.keywords@.len(),
                self.wf(),
                self.src() == old(self).src(),
                self.tok_start() == old(self).tok_start(),
                self.pos() >= old(self).pos(),
                self.cur_line() == old(self).cur_line(),
                text_str@ == self.src().subrange(self.tok_start(), self.pos()),
                forall|j: int| 0 <= j < i ==> (#[trigger] self.keywords@[j]).0@ != text_str@,
            decreases n - i,
        {
            if str_eq(self.keywords[i].0.as_str(), text_str.as_str()) {
                let kind = self.keywords[i].1;
                proof {
                    assert(keyword_kind(text_str@) == Some(kind));
                }
                return self.make_token(kind);
            }
            i = i + 1;
        }
        proof {
            assert(keyword_kind(text_str@) is None);
        }
        self.make_token(TokenType::Identifier)
    }

    /// Moves past blank space, counting lines, and past one line comment.
    fn skip_whitespace(&mut self)
        requires
            old(self).wf(),
        ensures
            final(self).wf(),
            final(self).src() == old(self).src(),
            final(self).pos() >= old(self).pos(),
            final(self).cur_line() >= old(self).cur_line(),
    {
        while self.current < self.source.len()
            invariant
                self.wf(),
                self.src() == old(self).src(),
                self.pos() >= old(self).pos(),
                self.cur_line() >= old(self).cur_line(),
            decreases self.src().len() - self.pos(),
        {
            let c = self.source[self.current];
            if c == ' ' || c == '\t' || c == '\r' {
                let _ = self.advance();
            } else if c == '\n' {
                if self.line < usize::MAX {
                    self.line = self.line + 1;
                }
                let _ = self.advance();
            } else if c == '/' {
                if self.current + 1 < self.source.len() && self.source[self.current + 1] == '/' {
                    // the comment runs to the end of the line
                    while self.current < self.source.len() && self.source[self.current] != '\n'
                        invariant
                            self.wf(),
                            self.src() == old(self).src(),
                            self.pos() >= old(self).pos(),
                            self.cur_line() >= old(self).cur_line(),
                        decreases self.src().len() - self.pos(),
                    {
                        let _ = self.advance();
                    }
                    return ;
                } else {
                    return ;
                }
            } else {
                return ;
            }
        }
    }

    /// The characters between the token start and the current position.
    fn lexeme_chars(&self) -> (r: Vec<char>)
        requires
            self.wf(),
        ensures
            r@ == self.src().subrange(self.tok_start(), self.pos()),
    {
        let mut out: Vec<char> = Vec::new();
        let mut i: usize = self.start;
        while i < self.current
            invariant
                self.wf(),
                self.tok_start() <= i as int <= self.pos(),
                out@ == self.src().subrange(self.tok_start(), i as int),
            decreases self.pos() - i,
        {
            out.push(self.source[i]);
            proof {
                assert(out@ =~= self.src().subrange(self.tok_start(), i + 1 as int));
            }
            i = i + 1;
        }
        proof {
            assert(out@ =~= self.src().subrange(self.tok_start(), self.pos()));
        }
        out
    }

    /// A token of the given kind covering the characters scanned since the
    /// token start.
    fn make_token(&self, token_type: TokenType) -> (t: Token)
        requires
            self.wf(),
        ensures
            t.token_type == token_type,
            t.lexeme@ == self.src().subrange(self.tok_start(), self.pos()),
            t.line as int == self.cur_line(),
    {
        let lexeme = string_from_chars(&self.lexeme_chars());
        Token { token_type, lexeme, line: self.line }
    }
}

fn is_digit(c: char) -> (r: bool)
    ensures
        r == digit_char(c),
{
    let u = c as u32;
    48 <= u && u <= 57
}

fn is_alpha(c: char) -> (r: bool)
    ensures
        r == alpha_char(c),
{
    let u = c as u32;
    (65 <= u && u <= 90) || (97 <= u && u <= 122)
}

} // verus!
