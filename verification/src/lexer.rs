//! The lexer: source text to tokens.
//!
//! Every space and every line end becomes a token of its own. A maximal run
//! of alphabetic characters is a keyword or an identifier, a maximal run of
//! numeric characters an integer literal. A character that starts no token
//! counts as a line end.

use vstd::prelude::*;
use vstd::string::*;
use crate::token::{token_views, Keyword, Token, TokenView};

verus! {

/// A run of numeric characters that is no integer literal.
#[derive(Debug, Clone, Copy, PartialEq, Eq, Structural)]
pub enum LexError {
    /// The run holds a numeric character that is not one of `0` to `9`.
    InvalidDigit,
    /// The value of the literal does not fit the machine word.
    LiteralTooLarge,
}

impl LexError {
    /// What the error says to a reader.
    pub open spec fn spec_message(self) -> Seq<char> {
        match self {
            LexError::InvalidDigit => "invalid digit in integer literal"@,
            LexError::LiteralTooLarge => "integer literal too large"@,
        }
    }

    /// What the error says to a reader.
    pub fn message(self) -> (text: &'static str)
        ensures
            text@ == self.spec_message(),
    {
        match self {
            LexError::InvalidDigit => "invalid digit in integer literal",
            LexError::LiteralTooLarge => "integer literal too large",
        }
    }
}

/// What the Unicode tables say of one character.
#[derive(Debug, Clone, Copy, PartialEq, Eq, Structural)]
pub struct CharClass {
    /// The character has the Alphabetic property.
    pub alphabetic: bool,
    /// The character is in one of the general categories for numbers.
    pub numeric: bool,
}

/// The kinds of run that the lexer scans.
#[derive(Debug, Clone, Copy, PartialEq, Eq, Structural)]
pub enum RunKind {
    /// A run of alphabetic characters.
    Word,
    /// A run of numeric characters.
    Number,
}

/// Whether `char::is_alphabetic` holds of `c`.
pub uninterp spec fn unicode_alphabetic(c: char) -> bool;

/// Whether `char::is_numeric` holds of `c`.
pub uninterp spec fn unicode_numeric(c: char) -> bool;

/// Calls `char::is_alphabetic`. The result is a function of the character
/// alone, fixed by the Unicode tables of the standard library; the contract
/// gives it its name and claims no more.
#[verifier::external_body]
fn char_is_alphabetic(c: char) -> (result: bool)
    ensures
        result == unicode_alphabetic(c),
{
    c.is_alphabetic()
}

/// Calls `char::is_numeric`. The result is a function of the character
/// alone, fixed by the Unicode tables of the standard library; the contract
/// gives it its name and claims no more.
#[verifier::external_body]
fn char_is_numeric(c: char) -> (result: bool)
    ensures
        result == unicode_numeric(c),
{
    c.is_numeric()
}

/// The class of a character by the Unicode tables.
pub open spec fn class_of(c: char) -> CharClass {
    CharClass { alphabetic: unicode_alphabetic(c), numeric: unicode_numeric(c) }
}

/// The classes of the characters of a text, in order.
pub open spec fn classes_of(source: Seq<char>) -> Seq<CharClass> {
    Seq::new(source.len(), |i: int| class_of(source[i]))
}

/// The class at `index`; past the end of `classes`, neither alphabetic nor numeric.
pub open spec fn class_at(classes: Seq<CharClass>, index: int) -> CharClass {
    if 0 <= index < classes.len() {
        classes[index]
    } else {
        CharClass { alphabetic: false, numeric: false }
    }
}

/// Whether a character of class `class` continues a run of kind `kind`.
pub open spec fn continues_run(class: CharClass, kind: RunKind) -> bool {
    match kind {
        RunKind::Word => class.alphabetic,
        RunKind::Number => class.numeric,
    }
}

/// How many characters from `from` on, and before `len`, continue a run of kind `kind`.
pub open spec fn run_extent(classes: Seq<CharClass>, kind: RunKind, from: nat, len: nat) -> nat
    decreases len - from,
{
    if from < len && continues_run(class_at(classes, from as int), kind) {
        1 + run_extent(classes, kind, from + 1, len)
    } else {
        0
    }
}

/// The token of a run of alphabetic characters: a keyword, if it spells one,
/// else an identifier.
pub open spec fn word_token(word: Seq<char>) -> TokenView {
    if word == seq!['i', 'n', 't'] {
        TokenView::Keyword(Keyword::Int)
    } else if word == seq!['r', 'e', 't', 'u', 'r', 'n'] {
        TokenView::Keyword(Keyword::Return)
    } else {
        TokenView::Identifier(word)
    }
}

/// Whether `c` is one of `0` to `9`.
pub open spec fn is_decimal_digit(c: char) -> bool {
    '0' <= c <= '9'
}

/// The value of a decimal digit.
pub open spec fn digit_value(c: char) -> nat
    recommends
        is_decimal_digit(c),
{
    (c as u32 - '0' as u32) as nat
}

/// The value of a run of numeric characters read as a decimal number, from
/// left to right. The first character that is no decimal digit, or that
/// takes the value past the machine word, decides the error.
pub open spec fn literal_value(digits: Seq<char>) -> Result<nat, LexError>
    decreases digits.len(),
{
    if digits.len() == 0 {
        Ok(0)
    } else {
        match literal_value(digits.drop_last()) {
            Err(error) => Err(error),
            Ok(value) => if !is_decimal_digit(digits.last()) {
                Err(LexError::InvalidDigit)
            } else if 10 * value + digit_value(digits.last()) > usize::MAX {
                Err(LexError::LiteralTooLarge)
            } else {
                Ok(10 * value + digit_value(digits.last()))
            },
        }
    }
}

/// The token of a run of numeric characters.
pub open spec fn number_token(digits: Seq<char>) -> Result<TokenView, LexError> {
    match literal_value(digits) {
        Ok(value) => Ok(TokenView::IntegerLiteral(value as usize)),
        Err(error) => Err(error),
    }
}

/// Whether the character after the one at `pos` is `c`.
pub open spec fn followed_by(source: Seq<char>, pos: nat, c: char) -> bool {
    pos + 1 < source.len() && source[pos as int + 1] == c
}

/// The token that starts at `pos`, and how many characters it takes beyond
/// its first.
pub open spec fn token_at(source: Seq<char>, classes: Seq<CharClass>, pos: nat) -> (
    Result<TokenView, LexError>,
    nat,
)
    recommends
        pos < source.len(),
{
    let c = source[pos as int];
    let class = class_at(classes, pos as int);
    if c == ' ' {
        (Ok(TokenView::Space), 0)
    } else if c == '\n' || c == '\r' {
        (Ok(TokenView::NewLine), 0)
    } else if c == '(' {
        (Ok(TokenView::OpenParen), 0)
    } else if c == ')' {
        (Ok(TokenView::CloseParen), 0)
    } else if c == '{' {
        (Ok(TokenView::OpenBrace), 0)
    } else if c == '}' {
        (Ok(TokenView::CloseBrace), 0)
    } else if c == ';' {
        (Ok(TokenView::Semicolon), 0)
    } else if c == '-' {
        (Ok(TokenView::Minus), 0)
    } else if c == '~' {
        (Ok(TokenView::BitwiseComplementOperator), 0)
    } else if c == '+' {
        (Ok(TokenView::Addition), 0)
    } else if c == '*' {
        (Ok(TokenView::Multiplication), 0)
    } else if c == '/' {
        (Ok(TokenView::Division), 0)
    } else if c == '!' {
        if followed_by(source, pos, '=') {
            (Ok(TokenView::NotEqual), 1)
        } else {
            (Ok(TokenView::LogicalNegationOperator), 0)
        }
    } else if c == '&' {
        if followed_by(source, pos, '&') {
            (Ok(TokenView::LogicalAnd), 1)
        } else {
            (Ok(TokenView::BitwiseAnd), 0)
        }
    } else if c == '|' {
        if followed_by(source, pos, '|') {
            (Ok(TokenView::LogicalOr), 1)
        } else {
            (Ok(TokenView::BitwiseOr), 0)
        }
    } else if c == '<' {
        if followed_by(source, pos, '=') {
            (Ok(TokenView::LessThanOrEqual), 1)
        } else {
            (Ok(TokenView::LessThan), 0)
        }
    } else if c == '>' {
        if followed_by(source, pos, '=') {
            (Ok(TokenView::GreaterThanOrEqual), 1)
        } else {
            (Ok(TokenView::GreaterThan), 0)
        }
    } else if c == '=' && followed_by(source, pos, '=') {
        (Ok(TokenView::Equal), 1)
    } else if class.alphabetic {
        let extra = run_extent(classes, RunKind::Word, pos + 1, source.len());
        (Ok(word_token(source.subrange(pos as int, pos as int + 1 + extra))), extra)
    } else if class.numeric {
        let extra = run_extent(classes, RunKind::Number, pos + 1, source.len());
        (number_token(source.subrange(pos as int, pos as int + 1 + extra)), extra)
    } else {
        (Ok(TokenView::NewLine), 0)
    }
}

/// The tokens of `source` from `pos` on, given the classes of its
/// characters; or the error of the first literal that has none.
pub open spec fn scan_tokens(source: Seq<char>, classes: Seq<CharClass>, pos: nat) -> Result<
    Seq<TokenView>,
    LexError,
>
    decreases
            (if pos < source.len() {
                source.len() - pos
            } else {
                0
            }),
{
    if pos >= source.len() {
        Ok(Seq::empty())
    } else {
        let (token, extra) = token_at(source, classes, pos);
        match token {
            Err(error) => Err(error),
            Ok(first) => match scan_tokens(source, classes, pos + 1 + extra) {
                Ok(rest) => Ok(seq![first] + rest),
                Err(error) => Err(error),
            },
        }
    }
}

/// The tokens of a source text, by the Unicode classes of its characters.
pub open spec fn lexed(source: Seq<char>) -> Result<Seq<TokenView>, LexError> {
    scan_tokens(source, classes_of(source), 0)
}

/// The class of a character by the Unicode tables.
pub fn classify(c: char) -> (class: CharClass)
    ensures
        class == class_of(c),
{
    CharClass { alphabetic: char_is_alphabetic(c), numeric: char_is_numeric(c) }
}

/// The characters of a text, one by one.
fn characters(text: &str) -> (chars: Vec<char>)
    ensures
        chars@ == text@,
{
    let mut chars: Vec<char> = Vec::new();
    for c in it: text.chars()
        invariant
            chars@ == it.seq().take(it.index() as int),
            it.seq() == text@,
    {
        chars.push(c);
        assert(it.seq().take(it.index() + 1).drop_last() =~= it.seq().take(it.index() as int));
    }
    assert(chars@ =~= text@);
    chars
}

/// Whether `c` is one of `0` to `9`.
fn decimal_digit(c: char) -> (result: bool)
    ensures
        result == is_decimal_digit(c),
{
    '0' <= c && c <= '9'
}

/// A lexer over one source text.
pub struct Lexer {
    buf: String,
    chars: Vec<char>,
    classes: Vec<CharClass>,
    pos: usize,
}

impl Lexer {
    #[verifier::type_invariant]
    spec fn well_formed(self) -> bool {
        &&& self.chars@ == self.buf@
        &&& self.pos <= self.chars.len()
    }

    /// The text that this lexer reads.
    pub closed spec fn source(self) -> Seq<char> {
        self.buf@
    }

    /// The classes that this lexer holds for the characters of its text.
    pub closed spec fn classes(self) -> Seq<CharClass> {
        self.classes@
    }

    /// How many characters this lexer has taken.
    pub closed spec fn position(self) -> nat {
        self.pos as nat
    }

    /// A lexer at the start of `buf`, with the Unicode class of each character.
    pub fn new(buf: String) -> (lexer: Lexer)
        ensures
            lexer.source() == buf@,
            lexer.classes() == classes_of(buf@),
            lexer.position() == 0,
    {
        let chars = characters(buf.as_str());
        let mut classes: Vec<CharClass> = Vec::new();
        let mut index: usize = 0;
        while index < chars.len()
            invariant
                index <= chars.len(),
                chars@ == buf@,
                classes@ == classes_of(buf@.take(index as int)),
            decreases chars.len() - index,
        {
            classes.push(classify(chars[index]));
            index += 1;
            assert(classes@ =~= classes_of(buf@.take(index as int)));
        }
        assert(buf@.take(index as int) =~= buf@);
        Lexer { buf, chars, classes, pos: 0 }
    }

    /// A lexer at the start of `buf` that takes `classes[i]` for the class of
    /// the character at `i`, and a character past the end of `classes` for
    /// neither alphabetic nor numeric.
    pub fn with_classes(buf: String, classes: Vec<CharClass>) -> (lexer: Lexer)
        ensures
            lexer.source() == buf@,
            lexer.classes() == classes@,
            lexer.position() == 0,
    {
        let chars = characters(buf.as_str());
        Lexer { buf, chars, classes, pos: 0 }
    }

    /// The class that this lexer holds for the character at `index`.
    fn class(&self, index: usize) -> (class: CharClass)
        ensures
            class == class_at(self.classes(), index as int),
    {
        if index < self.classes.len() {
            self.classes[index]
        } else {
            CharClass { alphabetic: false, numeric: false }
        }
    }

    /// Moves past the characters that continue a run of kind `kind`, and
    /// gives the position where the run ends.
    pub fn scan_until(&mut self, kind: RunKind) -> (end: usize)
        ensures
            end == final(self).position(),
            final(self).position() == old(self).position() + run_extent(
                old(self).classes(),
                kind,
                old(self).position(),
                old(self).source().len(),
            ),
            final(self).position() <= old(self).source().len(),
            final(self).source() == old(self).source(),
            final(self).classes() == old(self).classes(),
    {
        proof {
            use_type_invariant(&*self);
        }
        let len = self.chars.len();
        let ghost start = self.pos as nat;
        let ghost classes = self.classes@;
        loop
            invariant
                self.pos <= len,
                len == self.chars.len(),
                self.chars@ == self.buf@,
                self.buf@ == old(self).buf@,
                self.classes@ == classes,
                classes == old(self).classes@,
                start == old(self).pos,
                start <= self.pos,
                run_extent(classes, kind, start, len as nat) == (self.pos - start) + run_extent(
                    classes,
                    kind,
                    self.pos as nat,
                    len as nat,
                ),
            ensures
                self.pos <= len,
                len == self.chars.len(),
                self.chars@ == self.buf@,
                self.buf@ == old(self).buf@,
                self.classes@ == old(self).classes@,
                run_extent(classes, kind, start, len as nat) == self.pos - start,
            decreases len - self.pos,
        {
            if self.pos >= len {
                break ;
            }
            let class = self.class(self.pos);
            let more = match kind {
                RunKind::Word => class.alphabetic,
                RunKind::Number => class.numeric,
            };
            if !more {
                break ;
            }
            self.pos += 1;
        }
        self.pos
    }

    /// The token of the word in `chars[start..end]`.
    fn word(&self, start: usize, end: usize) -> (token: Token)
        requires
            start <= end <= self.source().len(),
        ensures
            token@ == word_token(self.source().subrange(start as int, end as int)),
    {
        proof {
            use_type_invariant(self);
        }
        let ghost word = self.chars@.subrange(start as int, end as int);
        if end - start == 3 && self.chars[start] == 'i' && self.chars[start + 1] == 'n'
            && self.chars[start + 2] == 't' {
            assert(word =~= seq!['i', 'n', 't']);
            Token::Keyword(Keyword::Int)
        } else if end - start == 6 && self.chars[start] == 'r' && self.chars[start + 1] == 'e'
            && self.chars[start + 2] == 't' && self.chars[start + 3] == 'u' && self.chars[start
            + 4] == 'r' && self.chars[start + 5] == 'n' {
            assert(word =~= seq!['r', 'e', 't', 'u', 'r', 'n']);
            Token::Keyword(Keyword::Return)
        } else {
            assert(word != seq!['i', 'n', 't']) by {
                if word == seq!['i', 'n', 't'] {
                    assert(word.len() == 3);
                    assert(word[0] == 'i' && word[1] == 'n' && word[2] == 't');
                }
            }
            assert(word != seq!['r', 'e', 't', 'u', 'r', 'n']) by {
                if word == seq!['r', 'e', 't', 'u', 'r', 'n'] {
                    assert(word.len() == 6);
                    assert(word[0] == 'r' && word[1] == 'e' && word[2] == 't' && word[3] == 'u'
                        && word[4] == 'r' && word[5] == 'n');
                }
            }
            let name = self.buf.as_str().substring_char(start, end);
            Token::Identifier(name.to_owned())
        }
    }

    /// The token of the numeric run in `chars[start..end]`.
    fn number(&self, start: usize, end: usize) -> (result: Result<Token, LexError>)
        requires
            start <= end <= self.source().len(),
        ensures
            match number_token(self.source().subrange(start as int, end as int)) {
                Ok(token) => result is Ok && result->Ok_0@ == token,
                Err(error) => result == Err::<Token, LexError>(error),
            },
    {
        proof {
            use_type_invariant(self);
        }
        let ghost digits = self.chars@.subrange(start as int, end as int);
        let mut value: usize = 0;
        let mut index: usize = start;
        while index < end
            invariant
                start <= index <= end <= self.chars.len(),
                self.chars@ == self.buf@,
                digits == self.chars@.subrange(start as int, end as int),
                literal_value(digits.take(index - start)) == Ok::<nat, LexError>(value as nat),
            decreases end - index,
        {
            let c = self.chars[index];
            let ghost next = digits.take(index - start + 1);
            proof {
                assert(next.drop_last() =~= digits.take(index - start));
                assert(next.last() == c);
                lemma_literal_value_fails(digits, (index - start + 1) as nat);
            }
            if !decimal_digit(c) {
                assert(literal_value(next) == Err::<nat, LexError>(LexError::InvalidDigit));
                return Err(LexError::InvalidDigit);
            }
            let digit = (c as u32 - '0' as u32) as usize;
            if value > (usize::MAX - digit) / 10 {
                assert(literal_value(next) == Err::<nat, LexError>(LexError::LiteralTooLarge));
                return Err(LexError::LiteralTooLarge);
            }
            assert(literal_value(next) == Ok::<nat, LexError>((10 * value + digit) as nat));
            value = 10 * value + digit;
            index += 1;
        }
        assert(digits.take(index - start) =~= digits);
        Ok(Token::IntegerLiteral(value))
    }

    /// Reads the text from this lexer's position to its end, token by
    /// token. Stops at the first numeric run that is no integer literal.
    pub fn lex(self) -> (result: Result<Vec<Token>, LexError>)
        ensures
            match scan_tokens(self.source(), self.classes(), self.position()) {
                Ok(tokens) => result is Ok && token_views(result->Ok_0@) == tokens,
                Err(error) => result == Err::<Vec<Token>, LexError>(error),
            },
    {
        proof {
            use_type_invariant(&self);
        }
        let mut lexer = self;
        let mut tokens: Vec<Token> = Vec::new();
        let len = lexer.chars.len();
        let ghost source = self.source();
        let ghost classes = self.classes();
        let ghost start = self.position();
        proof {
            assert(token_views(tokens@) =~= Seq::<TokenView>::empty());
            lemma_prepend_empty(scan_tokens(source, classes, start));
        }
        while lexer.pos < len
            invariant
                lexer.pos <= len,
                len == lexer.chars.len(),
                lexer.chars@ == source,
                source == self.source(),
                classes == self.classes(),
                start == self.position(),
                lexer.source() == source,
                lexer.classes() == classes,
                scan_tokens(source, classes, start) == prepend(
                    token_views(tokens@),
                    scan_tokens(source, classes, lexer.pos as nat),
                ),
            decreases len - lexer.pos,
        {
            let at = lexer.pos;
            let current_char = lexer.chars[at];
            let next_char = if at + 1 < len {
                Some(lexer.chars[at + 1])
            } else {
                None
            };
            let ghost before = token_views(tokens@);
            lexer.pos = at + 1;
            let token: Token = match current_char {
                ' ' => Token::Space,
                '\n' | '\r' => Token::NewLine,
                '(' => Token::OpenParen,
                ')' => Token::CloseParen,
                '{' => Token::OpenBrace,
                '}' => Token::CloseBrace,
                ';' => Token::Semicolon,
                '-' => Token::Minus,
                '~' => Token::BitwiseComplementOperator,
                '+' => Token::Addition,
                '*' => Token::Multiplication,
                '/' => Token::Division,
                '!' => if next_char == Some('=') {
                    lexer.pos = at + 2;
                    Token::NotEqual
                } else {
                    Token::LogicalNegationOperator
                },
                '&' => if next_char == Some('&') {
                    lexer.pos = at + 2;
                    Token::LogicalAnd
                } else {
                    Token::BitwiseAnd
                },
                '|' => if next_char == Some('|') {
                    lexer.pos = at + 2;
                    Token::LogicalOr
                } else {
                    Token::BitwiseOr
                },
                '<' => if next_char == Some('=') {
                    lexer.pos = at + 2;
                    Token::LessThanOrEqual
                } else {
                    Token::LessThan
                },
                '>' => if next_char == Some('=') {
                    lexer.pos = at + 2;
                    Token::GreaterThanOrEqual
                } else {
                    Token::GreaterThan
                },
                _ => {
                    let class = lexer.class(at);
                    if current_char == '=' && next_char == Some('=') {
                        lexer.pos = at + 2;
                        Token::Equal
                    } else if class.alphabetic {
                        let end = lexer.scan_until(RunKind::Word);
                        lexer.word(at, end)
                    } else if class.numeric {
                        let end = lexer.scan_until(RunKind::Number);
                        match lexer.number(at, end) {
                            Ok(token) => token,
                            Err(error) => {
                                proof {
                                    use_type_invariant(&lexer);
                                    let (expected, extra) = token_at(source, classes, at as nat);
                                    assert(expected == Err::<TokenView, LexError>(error));
                                    assert(scan_tokens(source, classes, at as nat) == Err::<
                                        Seq<TokenView>,
                                        LexError,
                                    >(error));
                                }
                                return Err(error);
                            },
                        }
                    } else {
                        Token::NewLine
                    }
                },
            };
            proof {
                use_type_invariant(&lexer);
                let (expected, extra) = token_at(source, classes, at as nat);
                assert(expected == Ok::<TokenView, LexError>(token@));
                assert(lexer.pos == at + 1 + extra);
                lemma_prepend_push(
                    before,
                    token@,
                    scan_tokens(source, classes, lexer.pos as nat),
                );
            }
            tokens.push(token);
            assert(token_views(tokens@) =~= before.push(token@));
        }
        proof {
            lemma_prepend_empty_rest(token_views(tokens@));
        }
        Ok(tokens)
    }
}

/// What scanning gives when `head` was scanned before and `rest` is what
/// scanning gives from there.
pub open spec fn prepend(head: Seq<TokenView>, rest: Result<Seq<TokenView>, LexError>) -> Result<
    Seq<TokenView>,
    LexError,
> {
    match rest {
        Ok(tail) => Ok(head + tail),
        Err(error) => Err(error),
    }
}

/// Nothing scanned before changes nothing.
proof fn lemma_prepend_empty(rest: Result<Seq<TokenView>, LexError>)
    ensures
        prepend(Seq::empty(), rest) == rest,
{
    if let Ok(tail) = rest {
        assert(Seq::<TokenView>::empty() + tail =~= tail);
    }
}

/// Nothing left to scan leaves what was scanned before.
proof fn lemma_prepend_empty_rest(head: Seq<TokenView>)
    ensures
        prepend(head, Ok(Seq::empty())) == Ok::<Seq<TokenView>, LexError>(head),
{
    assert(head + Seq::<TokenView>::empty() =~= head);
}

/// A token scanned next may be counted with what was scanned before.
proof fn lemma_prepend_push(
    head: Seq<TokenView>,
    token: TokenView,
    rest: Result<Seq<TokenView>, LexError>,
)
    ensures
        prepend(head, prepend(seq![token], rest)) == prepend(head.push(token), rest),
{
    if let Ok(tail) = rest {
        assert(head + (seq![token] + tail) =~= head.push(token) + tail);
    }
}

/// Once a prefix of a numeric run has no value, no longer prefix has one.
proof fn lemma_literal_value_fails(digits: Seq<char>, failed: nat)
    requires
        failed <= digits.len(),
    ensures
        literal_value(digits.take(failed as int)) is Err ==> literal_value(digits)
            == literal_value(digits.take(failed as int)),
    decreases digits.len(),
{
    if failed < digits.len() {
        lemma_literal_value_fails(digits.drop_last(), failed);
        assert(digits.drop_last().take(failed as int) =~= digits.take(failed as int));
    } else {
        assert(digits.take(failed as int) =~= digits);
    }
}

/// Reads a source text token by token.
pub fn lex(file_contents: String) -> (result: Result<Vec<Token>, LexError>)
    ensures
        match lexed(file_contents@) {
            Ok(tokens) => result is Ok && token_views(result->Ok_0@) == tokens,
            Err(error) => result == Err::<Vec<Token>, LexError>(error),
        },
{
    Lexer::new(file_contents).lex()
}

} // verus!
