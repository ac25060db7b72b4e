//! Lexical analysis: source text to tokens, one token per call.
use vstd::prelude::*;
use vstd::string::*;
use crate::text::push_char;
use crate::token::{keyword, look_up_ident, Token, TokenView};

verus! {

/// The character at index `i`, or the NUL character past either end.
pub open spec fn char_at(s: Seq<char>, i: int) -> char {
    if 0 <= i < s.len() {
        s[i]
    } else {
        '\0'
    }
}

/// The index `i`, held to the length of `s`.
pub open spec fn clamp(s: Seq<char>, i: int) -> int {
    if i <= s.len() {
        i
    } else {
        s.len() as int
    }
}

/// Space, tab, newline and carriage return separate tokens.
pub open spec fn is_space(c: char) -> bool {
    c == ' ' || c == '\t' || c == '\n' || c == '\r'
}

/// ASCII letters and the underscore make up identifiers.
pub open spec fn is_letter_char(c: char) -> bool {
    ('a' <= c && c <= 'z') || ('A' <= c && c <= 'Z') || c == '_'
}

/// ASCII digits make up numbers.
pub open spec fn is_digit_char(c: char) -> bool {
    '0' <= c && c <= '9'
}

/// The value of a decimal digit character.
pub open spec fn digit_value(c: char) -> int {
    c as int - '0' as int
}

/// The first index at or after `pos` that holds no separator.
pub open spec fn skip_spaces(s: Seq<char>, pos: int) -> int
    decreases s.len() - pos,
{
    if 0 <= pos < s.len() && is_space(s[pos]) {
        skip_spaces(s, pos + 1)
    } else {
        pos
    }
}

/// The end of the maximal run of letters that starts at `pos`.
pub open spec fn letters_end(s: Seq<char>, pos: int) -> int
    decreases s.len() - pos,
{
    if 0 <= pos < s.len() && is_letter_char(s[pos]) {
        letters_end(s, pos + 1)
    } else {
        pos
    }
}

/// The end of the maximal run of digits that starts at `pos`.
pub open spec fn digits_end(s: Seq<char>, pos: int) -> int
    decreases s.len() - pos,
{
    if 0 <= pos < s.len() && is_digit_char(s[pos]) {
        digits_end(s, pos + 1)
    } else {
        pos
    }
}

/// The first index at or after `pos` that holds a double quote or a NUL
/// character, or the length of `s` if there is none.
pub open spec fn string_end(s: Seq<char>, pos: int) -> int
    decreases s.len() - pos,
{
    if 0 <= pos < s.len() && s[pos] != '"' && s[pos] != '\0' {
        string_end(s, pos + 1)
    } else {
        pos
    }
}

/// The number that a sequence of decimal digits denotes.
pub open spec fn digits_value(ds: Seq<char>) -> int
    decreases ds.len(),
{
    if ds.len() == 0 {
        0
    } else {
        digits_value(ds.drop_last()) * 10 + digit_value(ds.last())
    }
}

/// The token that starts at the first non-separator at or after `pos`,
/// together with the position from which lexing goes on.
pub open spec fn spec_next_token(s: Seq<char>, pos: int) -> (TokenView, int) {
    let p = skip_spaces(s, pos);
    let c = char_at(s, p);
    if c == '=' {
        if char_at(s, p + 1) == '=' {
            (TokenView::Eq, clamp(s, p + 2))
        } else {
            (TokenView::Assign, clamp(s, p + 1))
        }
    } else if c == '!' {
        if char_at(s, p + 1) == '=' {
            (TokenView::NotEq, clamp(s, p + 2))
        } else {
            (TokenView::Bang, clamp(s, p + 1))
        }
    } else if c == '"' {
        let e = string_end(s, p + 1);
        if char_at(s, e) == '"' {
            (TokenView::String(s.subrange(p + 1, e)), clamp(s, e + 1))
        } else {
            (TokenView::Illegal, clamp(s, e + 2))
        }
    } else if is_letter_char(c) {
        let e = letters_end(s, p);
        let word = s.subrange(p, e);
        match keyword(word) {
            Some(tok) => (tok, e),
            None => (TokenView::Ident(word), e),
        }
    } else if is_digit_char(c) {
        let e = digits_end(s, p);
        let v = digits_value(s.subrange(p, e));
        if v <= i64::MAX {
            (TokenView::Int(v as i64), e)
        } else {
            (TokenView::Illegal, e)
        }
    } else {
        (single_char_token(c), clamp(s, p + 1))
    }
}

/// The token that a character stands for when it is neither the start of a
/// two-character operator, a string, an identifier nor a number.
pub open spec fn single_char_token(c: char) -> TokenView {
    if c == ';' {
        TokenView::Semicolon
    } else if c == '(' {
        TokenView::LParen
    } else if c == ')' {
        TokenView::RParen
    } else if c == ',' {
        TokenView::Comma
    } else if c == '+' {
        TokenView::Plus
    } else if c == '-' {
        TokenView::Minus
    } else if c == '*' {
        TokenView::Asterisk
    } else if c == '/' {
        TokenView::Slash
    } else if c == '>' {
        TokenView::Gt
    } else if c == '<' {
        TokenView::Lt
    } else if c == '{' {
        TokenView::LBrace
    } else if c == '}' {
        TokenView::RBrace
    } else if c == '[' {
        TokenView::LBracket
    } else if c == ']' {
        TokenView::RBracket
    } else if c == ':' {
        TokenView::Colon
    } else if c == '\0' {
        TokenView::Eof
    } else {
        TokenView::Illegal
    }
}

/// The tokens from `pos` on, up to and including the first `Eof`.
pub open spec fn spec_tokens(s: Seq<char>, pos: int) -> Seq<TokenView>
    decreases s.len() - pos,
{
    let (tok, next) = spec_next_token(s, pos);
    if tok == TokenView::Eof || !(pos < next <= s.len()) {
        seq![tok]
    } else {
        seq![tok] + spec_tokens(s, next)
    }
}

/// The position behind the first `Eof` at or after `pos`.
pub open spec fn spec_tokens_end(s: Seq<char>, pos: int) -> int
    decreases s.len() - pos,
{
    let (tok, next) = spec_next_token(s, pos);
    if tok == TokenView::Eof || !(pos < next <= s.len()) {
        next
    } else {
        spec_tokens_end(s, next)
    }
}

/// The mathematical values of a sequence of tokens.
pub open spec fn token_views(toks: Seq<Token>) -> Seq<TokenView> {
    toks.map_values(|t: Token| t@)
}

/// A run of separators holds separators alone and ends inside the text, at
/// a non-separator.
pub proof fn lemma_skip_spaces(s: Seq<char>, pos: int)
    requires
        0 <= pos <= s.len(),
    ensures
        pos <= skip_spaces(s, pos) <= s.len(),
        !is_space(char_at(s, skip_spaces(s, pos))),
        forall|i: int| pos <= i < skip_spaces(s, pos) ==> is_space(s[i]),
    decreases s.len() - pos,
{
    if pos < s.len() && is_space(s[pos]) {
        lemma_skip_spaces(s, pos + 1);
    }
}

/// A run of letters is maximal: it holds letters alone and ends inside the
/// text, at a non-letter.
pub proof fn lemma_letters_end(s: Seq<char>, pos: int)
    requires
        0 <= pos <= s.len(),
    ensures
        pos <= letters_end(s, pos) <= s.len(),
        !is_letter_char(char_at(s, letters_end(s, pos))),
        is_letter_char(char_at(s, pos)) ==> pos < letters_end(s, pos),
        forall|i: int| pos <= i < letters_end(s, pos) ==> is_letter_char(s[i]),
    decreases s.len() - pos,
{
    if pos < s.len() && is_letter_char(s[pos]) {
        lemma_letters_end(s, pos + 1);
    }
}

/// A run of digits is maximal: it holds digits alone and ends inside the
/// text, at a non-digit.
pub proof fn lemma_digits_end(s: Seq<char>, pos: int)
    requires
        0 <= pos <= s.len(),
    ensures
        pos <= digits_end(s, pos) <= s.len(),
        !is_digit_char(char_at(s, digits_end(s, pos))),
        is_digit_char(char_at(s, pos)) ==> pos < digits_end(s, pos),
        forall|i: int| pos <= i < digits_end(s, pos) ==> is_digit_char(s[i]),
    decreases s.len() - pos,
{
    if pos < s.len() && is_digit_char(s[pos]) {
        lemma_digits_end(s, pos + 1);
    }
}

/// The body of a string literal holds neither a double quote nor a NUL
/// character, and ends inside the text at one of the two or at the end.
pub proof fn lemma_string_end(s: Seq<char>, pos: int)
    requires
        0 <= pos <= s.len(),
    ensures
        pos <= string_end(s, pos) <= s.len(),
        char_at(s, string_end(s, pos)) == '"' || char_at(s, string_end(s, pos)) == '\0',
        forall|i: int| pos <= i < string_end(s, pos) ==> s[i] != '"' && s[i] != '\0',
    decreases s.len() - pos,
{
    if pos < s.len() && s[pos] != '"' && s[pos] != '\0' {
        lemma_string_end(s, pos + 1);
    }
}

/// No keyword is `Eof`.
pub proof fn lemma_keyword_not_eof(word: Seq<char>)
    ensures
        keyword(word) != Some(TokenView::Eof),
{
}

/// Lexing never moves backwards and never leaves the text, and every token
/// but `Eof` uses up at least one character.
pub proof fn lemma_next_token_progress(s: Seq<char>, pos: int)
    requires
        0 <= pos <= s.len(),
    ensures
        pos <= spec_next_token(s, pos).1 <= s.len(),
        spec_next_token(s, pos).0 != TokenView::Eof ==> pos < spec_next_token(s, pos).1,
{
    lemma_skip_spaces(s, pos);
    let p = skip_spaces(s, pos);
    let c = char_at(s, p);
    if c == '"' {
        lemma_string_end(s, p + 1);
    } else if is_letter_char(c) {
        lemma_letters_end(s, p);
        lemma_keyword_not_eof(s.subrange(p, letters_end(s, p)));
    } else if is_digit_char(c) {
        lemma_digits_end(s, p);
    }
}

/// A lexer over a source text.
///
/// `cur` is the character under the cursor and `peek` the one after it; both
/// read as NUL once the text is used up.
#[derive(Debug)]
pub struct Lexer {
    pub input: Vec<char>,
    pub pos: usize,
    pub cur: char,
    pub peek: char,
}

fn is_letter(ch: char) -> (r: bool)
    ensures
        r == is_letter_char(ch),
{
    ('a' <= ch && ch <= 'z') || ('A' <= ch && ch <= 'Z') || ch == '_'
}

fn is_digit(ch: char) -> (r: bool)
    ensures
        r == is_digit_char(ch),
{
    '0' <= ch && ch <= '9'
}

fn is_whitespace(ch: char) -> (r: bool)
    ensures
        r == is_space(ch),
{
    ch == ' ' || ch == '\t' || ch == '\n' || ch == '\r'
}

fn chars_of(s: &str) -> (r: Vec<char>)
    ensures
        r@ == s@,
{
    let mut out: Vec<char> = Vec::new();
    for c in it: s.chars()
        invariant
            out@ == it.seq().take(it.index@),
    {
        out.push(c);
    }
    out
}

impl Lexer {
    /// The cursor is inside the text or at its end, and `cur` and `peek`
    /// hold the characters at and after it.
    pub open spec fn wf(&self) -> bool {
        &&& self.pos <= self.input.len()
        &&& self.cur == char_at(self.input@, self.pos as int)
        &&& self.peek == char_at(self.input@, self.pos + 1)
    }

    /// A lexer at the start of `input`.
    pub fn new(input: &str) -> (l: Lexer)
        ensures
            l.wf(),
            l.input@ == input@,
            l.pos == 0,
    {
        let chars = chars_of(input);
        let cur = if chars.len() > 0 {
            chars[0]
        } else {
            '\0'
        };
        let peek = if chars.len() > 1 {
            chars[1]
        } else {
            '\0'
        };
        Lexer { input: chars, pos: 0, cur, peek }
    }

    /// Moves the cursor one character on, unless it is at the end of the
    /// text, and returns the character it was on.
    pub fn read_char(&mut self) -> (c: char)
        requires
            old(self).wf(),
        ensures
            final(self).wf(),
            final(self).input == old(self).input,
            c == old(self).cur,
            final(self).pos == clamp(old(self).input@, old(self).pos + 1),
    {
        let cur = self.cur;
        if self.pos < self.input.len() {
            self.pos = self.pos + 1;
        }
        self.cur = self.peek;
        self.peek = if self.pos < self.input.len() && self.pos + 1 < self.input.len() {
            self.input[self.pos + 1]
        } else {
            '\0'
        };
        cur
    }

    /// Returns the next token and moves the cursor behind it. Once the text
    /// is used up, every call returns `Eof`.
    pub fn next_token(&mut self) -> (tok: Token)
        requires
            old(self).wf(),
        ensures
            final(self).wf(),
            final(self).input == old(self).input,
            tok@ == spec_next_token(old(self).input@, old(self).pos as int).0,
            final(self).pos == spec_next_token(old(self).input@, old(self).pos as int).1,
    {
        self.skip_whitespace();
        proof {
            lemma_skip_spaces(old(self).input@, old(self).pos as int);
        }
        let c = self.cur;
        let token = if c == '=' {
            if self.peek == '=' {
                self.read_char();
                Token::Eq
            } else {
                Token::Assign
            }
        } else if c == '!' {
            if self.peek == '=' {
                self.read_char();
                Token::NotEq
            } else {
                Token::Bang
            }
        } else if c == '"' {
            self.read_string()
        } else if is_letter(c) {
            return self.read_identifier();
        } else if is_digit(c) {
            return self.read_number();
        } else if c == ';' {
            Token::Semicolon
        } else if c == '(' {
            Token::LParen
        } else if c == ')' {
            Token::RParen
        } else if c == ',' {
            Token::Comma
        } else if c == '+' {
            Token::Plus
        } else if c == '-' {
            Token::Minus
        } else if c == '*' {
            Token::Asterisk
        } else if c == '/' {
            Token::Slash
        } else if c == '>' {
            Token::Gt
        } else if c == '<' {
            Token::Lt
        } else if c == '{' {
            Token::LBrace
        } else if c == '}' {
            Token::RBrace
        } else if c == '[' {
            Token::LBracket
        } else if c == ']' {
            Token::RBracket
        } else if c == ':' {
            Token::Colon
        } else if c == '\0' {
            Token::Eof
        } else {
            Token::Illegal
        };
        self.read_char();
        token
    }

    /// The tokens from the cursor on, up to and including the first `Eof`.
    pub fn tokenize(&mut self) -> (toks: Vec<Token>)
        requires
            old(self).wf(),
        ensures
            final(self).wf(),
            final(self).input == old(self).input,
            token_views(toks@) == spec_tokens(
                old(self).input@,
                old(self).pos as int,
            ),
            final(self).pos == spec_tokens_end(old(self).input@, old(self).pos as int),
    {
        let mut toks: Vec<Token> = Vec::new();
        let ghost s = self.input@;
        let ghost start = self.pos as int;
        loop
            invariant
                self.wf(),
                self.input@ == s,
                self.input == old(self).input,
                start == old(self).pos,
                0 <= start <= s.len(),
                spec_tokens(s, start) == token_views(toks@) + spec_tokens(
                    s,
                    self.pos as int,
                ),
                spec_tokens_end(s, start) == spec_tokens_end(s, self.pos as int),
            decreases s.len() - self.pos,
        {
            let ghost before = self.pos as int;
            let ghost prev = token_views(toks@);
            let tok = self.next_token();
            proof {
                lemma_next_token_progress(s, before);
            }
            let done = matches!(tok, Token::Eof);
            let ghost tv = tok@;
            toks.push(tok);
            proof {
                assert(token_views(toks@) =~= prev.push(tv));
            }
            if done {
                proof {
                    assert(spec_tokens(s, before) =~= seq![tv]);
                    assert(prev + seq![tv] =~= prev.push(tv));
                    assert(token_views(toks@) == spec_tokens(s, start));
                }
                return toks;
            }
            proof {
                assert(spec_tokens(s, before) =~= seq![tv] + spec_tokens(s, self.pos as int));
                assert(prev + (seq![tv] + spec_tokens(s, self.pos as int)) =~= prev.push(tv)
                    + spec_tokens(s, self.pos as int));
            }
        }
    }

    fn skip_whitespace(&mut self)
        requires
            old(self).wf(),
        ensures
            final(self).wf(),
            final(self).input == old(self).input,
            final(self).pos == skip_spaces(old(self).input@, old(self).pos as int),
    {
        while is_whitespace(self.cur)
            invariant
                self.wf(),
                self.input == old(self).input,
                skip_spaces(self.input@, self.pos as int) == skip_spaces(
                    old(self).input@,
                    old(self).pos as int,
                ),
            decreases self.input.len() - self.pos,
        {
            self.read_char();
        }
    }

    fn read_identifier(&mut self) -> (tok: Token)
        requires
            old(self).wf(),
        ensures
            final(self).wf(),
            final(self).input == old(self).input,
            final(self).pos == letters_end(old(self).input@, old(self).pos as int),
            tok@ == (match keyword(
                old(self).input@.subrange(old(self).pos as int, final(self).pos as int),
            ) {
                Some(t) => t,
                None => TokenView::Ident(
                    old(self).input@.subrange(old(self).pos as int, final(self).pos as int),
                ),
            }),
    {
        let mut ident = String::new();
        let ghost start = self.pos as int;
        while is_letter(self.cur)
            invariant
                self.wf(),
                self.input == old(self).input,
                start == old(self).pos,
                start <= self.pos,
                ident@ == self.input@.subrange(start, self.pos as int),
                letters_end(self.input@, self.pos as int) == letters_end(self.input@, start),
            decreases self.input.len() - self.pos,
        {
            let ghost before = self.pos as int;
            let ch = self.read_char();
            push_char(&mut ident, ch);
            proof {
                assert(ident@ =~= self.input@.subrange(start, self.pos as int));
            }
        }
        match look_up_ident(ident.as_str()) {
            Some(token) => token,
            None => Token::Ident(ident),
        }
    }

    fn read_number(&mut self) -> (tok: Token)
        requires
            old(self).wf(),
        ensures
            final(self).wf(),
            final(self).input == old(self).input,
            final(self).pos == digits_end(old(self).input@, old(self).pos as int),
            tok@ == ({
                let v = digits_value(
                    old(self).input@.subrange(old(self).pos as int, final(self).pos as int),
                );
                if v <= i64::MAX {
                    TokenView::Int(v as i64)
                } else {
                    TokenView::Illegal
                }
            }),
    {
        let mut value: i64 = 0;
        let mut fits = true;
        let ghost start = self.pos as int;
        while is_digit(self.cur)
            invariant
                self.wf(),
                self.input == old(self).input,
                start == old(self).pos,
                start <= self.pos,
                digits_end(self.input@, self.pos as int) == digits_end(self.input@, start),
                0 <= digits_value(self.input@.subrange(start, self.pos as int)),
                fits ==> value == digits_value(self.input@.subrange(start, self.pos as int)),
                !fits ==> digits_value(self.input@.subrange(start, self.pos as int)) > i64::MAX,
            decreases self.input.len() - self.pos,
        {
            let ghost before = self.pos as int;
            let ch = self.read_char();
            let d: i64 = (ch as u32 - '0' as u32) as i64;
            proof {
                let longer = self.input@.subrange(start, self.pos as int);
                assert(longer.drop_last() =~= self.input@.subrange(start, before));
                assert(longer.last() == ch);
                assert(d == digit_value(ch));
            }
            if fits {
                match value.checked_mul(10) {
                    Some(v10) => match v10.checked_add(d) {
                        Some(v) => {
                            value = v;
                        },
                        None => {
                            fits = false;
                        },
                    },
                    None => {
                        fits = false;
                    },
                }
            }
        }
        if fits {
            Token::Int(value)
        } else {
            Token::Illegal
        }
    }

    fn read_string(&mut self) -> (tok: Token)
        requires
            old(self).wf(),
            old(self).cur == '"',
        ensures
            final(self).wf(),
            final(self).input == old(self).input,
            ({
                let s = old(self).input@;
                let p = old(self).pos as int;
                let e = string_end(s, p + 1);
                if char_at(s, e) == '"' {
                    tok@ == TokenView::String(s.subrange(p + 1, e)) && final(self).pos == e
                } else {
                    tok@ == TokenView::Illegal && final(self).pos == clamp(s, e + 1)
                }
            }),
    {
        self.read_char();
        let mut value = String::new();
        let ghost start = self.pos as int;
        while self.cur != '"'
            invariant
                self.wf(),
                self.input == old(self).input,
                start == old(self).pos + 1,
                start <= self.pos,
                value@ == self.input@.subrange(start, self.pos as int),
                string_end(self.input@, self.pos as int) == string_end(self.input@, start),
            decreases self.input.len() - self.pos,
        {
            let ch = self.read_char();
            if ch == '\0' {
                return Token::Illegal;
            }
            push_char(&mut value, ch);
            proof {
                assert(value@ =~= self.input@.subrange(start, self.pos as int));
            }
        }
        Token::String(value)
    }
}

/// The tokens of `source`, up to and including the first `Eof`.
pub fn tokenize(source: &str) -> (toks: Vec<Token>)
    ensures
        token_views(toks@) == spec_tokens(source@, 0),
{
    let mut lexer = Lexer::new(source);
    lexer.tokenize()
}

} // verus!
