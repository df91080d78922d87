//! The scanner: from source text to tokens.
//!
//! [`scan_spec`] says what the tokens of a text are, one token at a time
//! ([`scan_token_spec`]); [`scan`] computes them and is proved to agree with it.

use crate::number::{binary32_of_decimal, is_digit, Number};
use crate::text::{append, append_decimal, chars_of, decimal, string_of, strings_view};
use crate::token::{tokens_view, Token, TokenType, TokenTypeView, TokenView};
use vstd::prelude::*;

verus! {

/// Whether Unicode counts `c` as a letter or as a number.
pub uninterp spec fn unicode_alphanumeric(c: char) -> bool;

/// `char::is_alphanumeric` from the standard library: the Unicode properties
/// `Alphabetic` and `Numeric`, which are tables too long to write down here.
/// The contract only names the result.
pub assume_specification[ char::is_alphanumeric ](c: char) -> (r: bool)
    ensures
        r == unicode_alphanumeric(c),
;

/// Whether `c` is white space: the characters of the Unicode property
/// `White_Space`.
pub open spec fn is_whitespace(c: char) -> bool {
    ||| '\u{9}' <= c <= '\u{d}'
    ||| c == ' '
    ||| c == '\u{85}'
    ||| c == '\u{a0}'
    ||| c == '\u{1680}'
    ||| '\u{2000}' <= c <= '\u{200a}'
    ||| c == '\u{2028}'
    ||| c == '\u{2029}'
    ||| c == '\u{202f}'
    ||| c == '\u{205f}'
    ||| c == '\u{3000}'
}

/// Whether `c` is an ASCII letter.
pub open spec fn is_ascii_letter(c: char) -> bool {
    ('a' <= c && c <= 'z') || ('A' <= c && c <= 'Z')
}

/// Whether `c` can start an identifier: an ASCII letter or `_`.
pub open spec fn starts_word(c: char) -> bool {
    is_ascii_letter(c) || c == '_'
}

/// Whether `c` can continue an identifier: a letter or a number of any script,
/// or `_`.
pub open spec fn continues_word(c: char) -> bool {
    is_ascii_letter(c) || is_digit(c) || c == '_' || (c > '\u{7f}' && unicode_alphanumeric(c))
}

/// The classes of characters that the scanner runs over in one sweep.
#[derive(Clone, Copy, Debug, PartialEq, Eq, Structural)]
pub enum CharClass {
    /// Decimal digits.
    Digit,
    /// What continues an identifier.
    Word,
    /// Everything but a line feed.
    NotNewline,
    /// Everything but a double quote.
    NotQuote,
}

/// Whether `c` belongs to `class`.
pub open spec fn in_class(class: CharClass, c: char) -> bool {
    match class {
        CharClass::Digit => is_digit(c),
        CharClass::Word => continues_word(c),
        CharClass::NotNewline => c != '\n',
        CharClass::NotQuote => c != '"',
    }
}

/// The first position at or after `pos` whose character is not in `class`, or
/// the length of `src` if there is none.
pub open spec fn run_end(src: Seq<char>, pos: int, class: CharClass) -> int
    decreases src.len() - pos,
{
    if 0 <= pos < src.len() && in_class(class, src[pos]) {
        run_end(src, pos + 1, class)
    } else {
        pos
    }
}

/// The character at `pos`, and the character NUL past the end of `src`.
pub open spec fn peek(src: Seq<char>, pos: int) -> char {
    if 0 <= pos < src.len() {
        src[pos]
    } else {
        '\0'
    }
}

/// The line after `line`; the count stays at its maximum once it is reached.
pub open spec fn next_line(line: u32) -> u32 {
    if line < u32::MAX {
        (line + 1) as u32
    } else {
        line
    }
}

/// The keyword that `word` is, if it is one.
pub open spec fn keyword_of(word: Seq<char>) -> Option<TokenTypeView> {
    if word == "and"@ {
        Some(TokenTypeView::And)
    } else if word == "class"@ {
        Some(TokenTypeView::Class)
    } else if word == "else"@ {
        Some(TokenTypeView::Else)
    } else if word == "false"@ {
        Some(TokenTypeView::False)
    } else if word == "fun"@ {
        Some(TokenTypeView::Fun)
    } else if word == "for"@ {
        Some(TokenTypeView::For)
    } else if word == "if"@ {
        Some(TokenTypeView::If)
    } else if word == "nil"@ {
        Some(TokenTypeView::Nil)
    } else if word == "or"@ {
        Some(TokenTypeView::Or)
    } else if word == "print"@ {
        Some(TokenTypeView::Print)
    } else if word == "return"@ {
        Some(TokenTypeView::Return)
    } else if word == "super"@ {
        Some(TokenTypeView::Super)
    } else if word == "this"@ {
        Some(TokenTypeView::This)
    } else if word == "true"@ {
        Some(TokenTypeView::True)
    } else if word == "var"@ {
        Some(TokenTypeView::Var)
    } else if word == "while"@ {
        Some(TokenTypeView::While)
    } else {
        None
    }
}

/// The message for a character that starts no token.
pub open spec fn invalid_character_message(c: char, line: u32) -> Seq<char> {
    "Invalid character "@ + seq![c] + " at line "@ + decimal(line as nat)
}

/// The message for a letter that touches the end of a number.
pub open spec fn after_number_message(c: char, line: u32) -> Seq<char> {
    "Unexpected character '"@ + seq![c] + "' after number at line "@ + decimal(line as nat)
}

/// What one step of the scanner does: where it stops, the line it is on then,
/// and the token and the error that it adds, if any.
pub struct Step {
    pub next: int,
    pub line: u32,
    pub token: Option<TokenTypeView>,
    pub error: Option<Seq<char>>,
}

/// A step that adds the token `kind` and stops at `next`.
pub open spec fn emit(kind: TokenTypeView, next: int, line: u32) -> Step {
    Step { next, line, token: Some(kind), error: None }
}

/// A step that adds nothing and stops at `next` on `line`.
pub open spec fn skip(next: int, line: u32) -> Step {
    Step { next, line, token: None, error: None }
}

/// One of two operators: `long` if the character at `pos` is `=`, which is then
/// consumed, else `short`.
pub open spec fn operator_step(
    src: Seq<char>,
    pos: int,
    line: u32,
    long: TokenTypeView,
    short: TokenTypeView,
) -> Step {
    if peek(src, pos) == '=' {
        emit(long, pos + 1, line)
    } else {
        emit(short, pos, line)
    }
}

/// Where the number that starts at `start` ends: after its digits, and after a
/// point and further digits if a digit follows the point.
pub open spec fn number_end(src: Seq<char>, start: int) -> int {
    let whole = run_end(src, start + 1, CharClass::Digit);
    if peek(src, whole) == '.' && is_digit(peek(src, whole + 1)) {
        run_end(src, whole + 1, CharClass::Digit)
    } else {
        whole
    }
}

/// The step over the number that starts at `start`: the token of the value
/// that its numeral stands for. A letter right after it is an error; the number
/// is a token all the same.
pub open spec fn number_step(src: Seq<char>, start: int, line: u32) -> Step {
    let end = number_end(src, start);
    let token = match binary32_of_decimal(src.subrange(start, end)) {
        Some(bits) => Some(TokenTypeView::Number(Number { bits })),
        None => None,
    };
    let error = if is_ascii_letter(peek(src, end)) {
        Some(after_number_message(peek(src, end), line))
    } else {
        None
    };
    Step { next: end, line, token, error }
}

/// The step over the word that starts at `start`: a keyword or an identifier.
pub open spec fn word_step(src: Seq<char>, start: int, line: u32) -> Step {
    let end = run_end(src, start + 1, CharClass::Word);
    let word = src.subrange(start, end);
    match keyword_of(word) {
        Some(kind) => emit(kind, end, line),
        None => emit(TokenTypeView::Identifier(word), end, line),
    }
}

/// The step over the string whose opening quote stands just before `start`:
/// everything up to the next quote, or up to the end of the text if there is
/// none. Line feeds inside a string do not count as lines.
pub open spec fn string_step(src: Seq<char>, start: int, line: u32) -> Step {
    let end = run_end(src, start, CharClass::NotQuote);
    let next = if end < src.len() {
        end + 1
    } else {
        end
    };
    emit(TokenTypeView::Str(src.subrange(start, end)), next, line)
}

/// The step that the scanner takes at `pos`, a position inside `src`.
pub open spec fn scan_token_spec(src: Seq<char>, pos: int, line: u32) -> Step
    recommends
        0 <= pos < src.len(),
{
    let c = src[pos];
    let after = pos + 1;
    if c == '\n' {
        skip(after, next_line(line))
    } else if is_whitespace(c) {
        skip(after, line)
    } else if c == '/' {
        if peek(src, after) == '/' {
            skip(run_end(src, after, CharClass::NotNewline), line)
        } else {
            emit(TokenTypeView::Slash, after, line)
        }
    } else if c == '"' {
        string_step(src, after, line)
    } else if c == '(' {
        emit(TokenTypeView::LeftParen, after, line)
    } else if c == ')' {
        emit(TokenTypeView::RightParen, after, line)
    } else if c == '{' {
        emit(TokenTypeView::LeftBrace, after, line)
    } else if c == '}' {
        emit(TokenTypeView::RightBrace, after, line)
    } else if c == ',' {
        emit(TokenTypeView::Comma, after, line)
    } else if c == '.' {
        emit(TokenTypeView::Dot, after, line)
    } else if c == '-' {
        emit(TokenTypeView::Minus, after, line)
    } else if c == '+' {
        emit(TokenTypeView::Plus, after, line)
    } else if c == ';' {
        emit(TokenTypeView::SemiColon, after, line)
    } else if c == '*' {
        emit(TokenTypeView::Star, after, line)
    } else if c == '!' {
        operator_step(src, after, line, TokenTypeView::BangEqual, TokenTypeView::Bang)
    } else if c == '=' {
        operator_step(src, after, line, TokenTypeView::EqualEqual, TokenTypeView::Equal)
    } else if c == '>' {
        operator_step(src, after, line, TokenTypeView::GreaterEqual, TokenTypeView::Greater)
    } else if c == '<' {
        operator_step(src, after, line, TokenTypeView::LessEqual, TokenTypeView::Less)
    } else if is_digit(c) {
        number_step(src, pos, line)
    } else if starts_word(c) {
        word_step(src, pos, line)
    } else {
        Step { next: after, line, token: None, error: Some(invalid_character_message(c, line)) }
    }
}

/// A run never ends before it starts, nor past the end of the text.
pub proof fn lemma_run_end_bounds(src: Seq<char>, pos: int, class: CharClass)
    requires
        0 <= pos <= src.len(),
    ensures
        pos <= run_end(src, pos, class) <= src.len(),
        forall|i: int| pos <= i < run_end(src, pos, class) ==> in_class(class, #[trigger] src[i]),
        run_end(src, pos, class) < src.len() ==> !in_class(
            class,
            src[run_end(src, pos, class)],
        ),
    decreases src.len() - pos,
{
    if pos < src.len() && in_class(class, src[pos]) {
        lemma_run_end_bounds(src, pos + 1, class);
    }
}

/// Every step moves forward and stays inside the text.
pub proof fn lemma_step_advances(src: Seq<char>, pos: int, line: u32)
    requires
        0 <= pos < src.len(),
    ensures
        pos < scan_token_spec(src, pos, line).next <= src.len(),
{
    lemma_run_end_bounds(src, pos + 1, CharClass::Digit);
    lemma_run_end_bounds(src, pos + 1, CharClass::Word);
    lemma_run_end_bounds(src, pos + 1, CharClass::NotNewline);
    lemma_run_end_bounds(src, pos + 1, CharClass::NotQuote);
    let whole = run_end(src, pos + 1, CharClass::Digit);
    if whole + 1 <= src.len() {
        lemma_run_end_bounds(src, whole + 1, CharClass::Digit);
    }
}

/// What the scanner has gathered: tokens, errors, and the line it is on.
pub struct Scanned {
    pub tokens: Seq<TokenView>,
    pub errors: Seq<Seq<char>>,
    pub line: u32,
}

/// The token of a step, on the line on which the step began.
pub open spec fn step_tokens(step: Step, line: u32) -> Seq<TokenView> {
    match step.token {
        Some(kind) => seq![TokenView { token_type: kind, line }],
        None => Seq::empty(),
    }
}

/// The error of a step.
pub open spec fn step_errors(step: Step) -> Seq<Seq<char>> {
    match step.error {
        Some(message) => seq![message],
        None => Seq::empty(),
    }
}

/// Everything that the scanner gathers from `pos` to the end of `src`, starting
/// on `line`.
pub open spec fn scan_from(src: Seq<char>, pos: int, line: u32) -> Scanned
    decreases src.len() - pos,
{
    if 0 <= pos < src.len() {
        let step = scan_token_spec(src, pos, line);
        proof {
            lemma_step_advances(src, pos, line);
        }
        let rest = scan_from(src, step.next, step.line);
        Scanned {
            tokens: step_tokens(step, line) + rest.tokens,
            errors: step_errors(step) + rest.errors,
            line: rest.line,
        }
    } else {
        Scanned { tokens: Seq::empty(), errors: Seq::empty(), line }
    }
}

/// The result of scanning `src`: its tokens and a last one for the end of the
/// input, or, if anything was wrong, all the errors that were found.
pub open spec fn scan_spec(src: Seq<char>) -> Result<Seq<TokenView>, Seq<Seq<char>>> {
    let all = scan_from(src, 0, 1);
    if all.errors.len() == 0 {
        Ok(all.tokens.push(TokenView { token_type: TokenTypeView::Eof, line: all.line }))
    } else {
        Err(all.errors)
    }
}

/// The scanner at work: the text, the position of the next character, the
/// current line, and what has been gathered so far.
struct Scanner {
    source: Vec<char>,
    current: usize,
    line: u32,
    tokens: Vec<Token>,
    errors: Vec<String>,
}

/// A scanner as a mathematical value.
pub struct ScannerView {
    pub source: Seq<char>,
    pub current: int,
    pub line: u32,
    pub tokens: Seq<TokenView>,
    pub errors: Seq<Seq<char>>,
}

impl View for Scanner {
    type V = ScannerView;

    closed spec fn view(&self) -> ScannerView {
        ScannerView {
            source: self.source@,
            current: self.current as int,
            line: self.line,
            tokens: tokens_view(self.tokens@),
            errors: strings_view(self.errors@),
        }
    }
}

/// The scanner after `step`, which began on the scanner's line.
pub open spec fn after_step(before: ScannerView, step: Step) -> ScannerView {
    ScannerView {
        source: before.source,
        current: step.next,
        line: step.line,
        tokens: before.tokens + step_tokens(step, before.line),
        errors: before.errors + step_errors(step),
    }
}

fn is_digit_char(c: char) -> (r: bool)
    ensures
        r == is_digit(c),
{
    '0' <= c && c <= '9'
}

fn is_letter_char(c: char) -> (r: bool)
    ensures
        r == is_ascii_letter(c),
{
    ('a' <= c && c <= 'z') || ('A' <= c && c <= 'Z')
}

fn is_whitespace_char(c: char) -> (r: bool)
    ensures
        r == is_whitespace(c),
{
    ('\u{9}' <= c && c <= '\u{d}') || c == ' ' || c == '\u{85}' || c == '\u{a0}' || c == '\u{1680}'
        || ('\u{2000}' <= c && c <= '\u{200a}') || c == '\u{2028}' || c == '\u{2029}' || c
        == '\u{202f}' || c == '\u{205f}' || c == '\u{3000}'
}

fn is_in_class(class: CharClass, c: char) -> (r: bool)
    ensures
        r == in_class(class, c),
{
    match class {
        CharClass::Digit => is_digit_char(c),
        CharClass::Word => is_letter_char(c) || is_digit_char(c) || c == '_' || (c > '\u{7f}'
            && c.is_alphanumeric()),
        CharClass::NotNewline => c != '\n',
        CharClass::NotQuote => c != '"',
    }
}

fn spells(word: &Vec<char>, from: usize, to: usize, keyword: &str) -> (r: bool)
    requires
        from <= to <= word.len(),
    ensures
        r == (word@.subrange(from as int, to as int) == keyword@),
{
    let letters = chars_of(keyword);
    if letters.len() != to - from {
        return false;
    }
    let mut i: usize = 0;
    while i < letters.len()
        invariant
            i <= letters.len(),
            letters.len() == to - from,
            from <= to <= word.len(),
            letters@ == keyword@,
            forall|j: int| 0 <= j < i ==> word@[from + j] == letters@[j],
        decreases letters.len() - i,
    {
        if word[from + i] != letters[i] {
            assert(word@.subrange(from as int, to as int)[i as int] != keyword@[i as int]);
            return false;
        }
        i = i + 1;
    }
    assert(word@.subrange(from as int, to as int) =~= keyword@);
    true
}

/// The keyword written `source[from..to]`, if those characters are one.
fn keyword(source: &Vec<char>, from: usize, to: usize) -> (r: Option<TokenType>)
    requires
        from <= to <= source.len(),
    ensures
        match keyword_of(source@.subrange(from as int, to as int)) {
            Some(kind) => r.is_some() && r.unwrap()@ == kind,
            None => r.is_none(),
        },
{
    if spells(source, from, to, "and") {
        Some(TokenType::And)
    } else if spells(source, from, to, "class") {
        Some(TokenType::Class)
    } else if spells(source, from, to, "else") {
        Some(TokenType::Else)
    } else if spells(source, from, to, "false") {
        Some(TokenType::False)
    } else if spells(source, from, to, "fun") {
        Some(TokenType::Fun)
    } else if spells(source, from, to, "for") {
        Some(TokenType::For)
    } else if spells(source, from, to, "if") {
        Some(TokenType::If)
    } else if spells(source, from, to, "nil") {
        Some(TokenType::Nil)
    } else if spells(source, from, to, "or") {
        Some(TokenType::Or)
    } else if spells(source, from, to, "print") {
        Some(TokenType::Print)
    } else if spells(source, from, to, "return") {
        Some(TokenType::Return)
    } else if spells(source, from, to, "super") {
        Some(TokenType::Super)
    } else if spells(source, from, to, "this") {
        Some(TokenType::This)
    } else if spells(source, from, to, "true") {
        Some(TokenType::True)
    } else if spells(source, from, to, "var") {
        Some(TokenType::Var)
    } else if spells(source, from, to, "while") {
        Some(TokenType::While)
    } else {
        None
    }
}

impl Scanner {
    /// Whether the position lies inside the text or at its end.
    spec fn wf(&self) -> bool {
        self.current <= self.source.len()
    }

    /// A scanner at the start of `source`, on line 1, with nothing gathered.
    fn new(source: &str) -> (s: Scanner)
        ensures
            s.wf(),
            s@ == (ScannerView {
                source: source@,
                current: 0,
                line: 1,
                tokens: Seq::empty(),
                errors: Seq::empty(),
            }),
    {
        let s = Scanner {
            source: chars_of(source),
            current: 0,
            line: 1,
            tokens: Vec::new(),
            errors: Vec::new(),
        };
        assert(tokens_view(s.tokens@) =~= Seq::empty());
        assert(strings_view(s.errors@) =~= Seq::empty());
        s
    }

    /// The next character, or NUL at the end of the text.
    fn peek_at(&self, pos: usize) -> (c: char)
        ensures
            c == peek(self@.source, pos as int),
    {
        if pos < self.source.len() {
            self.source[pos]
        } else {
            '\0'
        }
    }

    /// Steps over one character, if there is one, and returns it; NUL at the
    /// end of the text.
    fn advance(&mut self) -> (c: char)
        requires
            old(self).wf(),
        ensures
            final(self).wf(),
            c == peek(old(self)@.source, old(self)@.current),
            final(self)@ == (ScannerView {
                current: if old(self)@.current < old(self)@.source.len() {
                    old(self)@.current + 1
                } else {
                    old(self)@.current
                },
                ..old(self)@
            }),
    {
        if self.current < self.source.len() {
            let c = self.source[self.current];
            self.current = self.current + 1;
            c
        } else {
            '\0'
        }
    }

    /// Steps over the characters of `class` and returns the position reached.
    fn advance_while(&mut self, class: CharClass) -> (end: usize)
        requires
            old(self).wf(),
        ensures
            final(self).wf(),
            end == run_end(old(self)@.source, old(self)@.current, class),
            final(self)@ == (ScannerView { current: end as int, ..old(self)@ }),
    {
        while self.current < self.source.len() && is_in_class(class, self.source[self.current])
            invariant
                self.wf(),
                self@ == (ScannerView { current: self.current as int, ..old(self)@ }),
                run_end(self@.source, self.current as int, class) == run_end(
                    old(self)@.source,
                    old(self)@.current,
                    class,
                ),
            decreases self.source.len() - self.current,
        {
            self.current = self.current + 1;
        }
        self.current
    }

    /// Adds a token of the given kind, on the current line.
    fn add_token(&mut self, token_type: TokenType)
        requires
            old(self).wf(),
        ensures
            final(self).wf(),
            final(self)@ == (ScannerView {
                tokens: old(self)@.tokens.push(
                    TokenView { token_type: token_type@, line: old(self)@.line },
                ),
                ..old(self)@
            }),
    {
        let token = Token::new(token_type, self.line);
        self.tokens.push(token);
        assert(tokens_view(self.tokens@) =~= tokens_view(old(self).tokens@).push(token@));
    }

    /// Adds an error.
    fn add_error(&mut self, message: String)
        requires
            old(self).wf(),
        ensures
            final(self).wf(),
            final(self)@ == (ScannerView {
                errors: old(self)@.errors.push(message@),
                ..old(self)@
            }),
    {
        self.errors.push(message);
        assert(strings_view(self.errors@) =~= strings_view(old(self).errors@).push(message@));
    }

    /// Chooses between two operators by the next character, and steps over it
    /// if it is `ch`.
    fn match_char(&mut self, ch: char, matched_token: TokenType, unmatched_token: TokenType) -> (r:
        TokenType)
        requires
            old(self).wf(),
            ch != '\0',
        ensures
            final(self).wf(),
            peek(old(self)@.source, old(self)@.current) == ch ==> r == matched_token
                && final(self)@ == (ScannerView { current: old(self)@.current + 1, ..old(self)@ }),
            peek(old(self)@.source, old(self)@.current) != ch ==> r == unmatched_token
                && final(self)@ == old(self)@,
    {
        if self.peek_at(self.current) != ch {
            return unmatched_token;
        }
        self.advance();
        matched_token
    }

    /// Scans the operator that begins with the character just consumed.
    fn operator(&mut self, matched_token: TokenType, unmatched_token: TokenType)
        requires
            old(self).wf(),
        ensures
            final(self).wf(),
            final(self)@ == after_step(
                old(self)@,
                operator_step(
                    old(self)@.source,
                    old(self)@.current,
                    old(self)@.line,
                    matched_token@,
                    unmatched_token@,
                ),
            ),
    {
        let token = self.match_char('=', matched_token, unmatched_token);
        self.add_token(token);
        assert(self@.tokens =~= after_step(
            old(self)@,
            operator_step(
                old(self)@.source,
                old(self)@.current,
                old(self)@.line,
                matched_token@,
                unmatched_token@,
            ),
        ).tokens);
        assert(self@.errors =~= old(self)@.errors + Seq::<Seq<char>>::empty());
    }

    /// Scans the string whose opening quote was just consumed.
    fn string(&mut self)
        requires
            old(self).wf(),
        ensures
            final(self).wf(),
            final(self)@ == after_step(
                old(self)@,
                string_step(old(self)@.source, old(self)@.current, old(self)@.line),
            ),
    {
        let start = self.current;
        proof {
            lemma_run_end_bounds(self@.source, start as int, CharClass::NotQuote);
        }
        let end = self.advance_while(CharClass::NotQuote);
        let text = string_of(&self.source, start, end);
        self.add_token(TokenType::Str(text));
        self.advance();
        let ghost step = string_step(old(self)@.source, old(self)@.current, old(self)@.line);
        assert(self@.tokens =~= after_step(old(self)@, step).tokens);
        assert(self@.errors =~= after_step(old(self)@, step).errors);
    }

    /// Scans the number whose first digit stands at `start` and was just
    /// consumed.
    fn number(&mut self, start: usize)
        requires
            old(self).wf(),
            old(self)@.current == start + 1,
        ensures
            final(self).wf(),
            final(self)@ == after_step(
                old(self)@,
                number_step(old(self)@.source, start as int, old(self)@.line),
            ),
    {
        proof {
            lemma_run_end_bounds(self@.source, start + 1, CharClass::Digit);
        }
        let mut end = self.advance_while(CharClass::Digit);
        if self.peek_at(self.current) == '.' && end < self.source.len() && is_digit_char(
            self.peek_at(end + 1),
        ) {
            self.advance();
            proof {
                lemma_run_end_bounds(self@.source, end + 1, CharClass::Digit);
            }
            end = self.advance_while(CharClass::Digit);
        }
        assert(end == number_end(old(self)@.source, start as int));
        let next = self.peek_at(self.current);
        if is_letter_char(next) {
            self.add_error(after_number(next, self.line));
        }
        let text = string_of(&self.source, start, end);
        match Number::parse(text.as_str()) {
            Some(value) => {
                self.add_token(TokenType::Number(value));
            },
            None => {},
        }
        let ghost step = number_step(old(self)@.source, start as int, old(self)@.line);
        assert(self@.tokens =~= after_step(old(self)@, step).tokens);
        assert(self@.errors =~= after_step(old(self)@, step).errors);
    }

    /// Scans the word whose first character stands at `start` and was just
    /// consumed.
    fn identifier(&mut self, start: usize)
        requires
            old(self).wf(),
            old(self)@.current == start + 1,
        ensures
            final(self).wf(),
            final(self)@ == after_step(
                old(self)@,
                word_step(old(self)@.source, start as int, old(self)@.line),
            ),
    {
        proof {
            lemma_run_end_bounds(self@.source, start + 1, CharClass::Word);
        }
        let end = self.advance_while(CharClass::Word);
        match keyword(&self.source, start, end) {
            Some(token_type) => {
                self.add_token(token_type);
            },
            None => {
                let name = string_of(&self.source, start, end);
                self.add_token(TokenType::Identifier(name));
            },
        }
        let ghost step = word_step(old(self)@.source, start as int, old(self)@.line);
        assert(self@.tokens =~= after_step(old(self)@, step).tokens);
        assert(self@.errors =~= after_step(old(self)@, step).errors);
    }

    /// Adds the token of one character that was just consumed.
    fn single(&mut self, token_type: TokenType)
        requires
            old(self).wf(),
        ensures
            final(self).wf(),
            final(self)@ == after_step(
                old(self)@,
                emit(token_type@, old(self)@.current, old(self)@.line),
            ),
    {
        self.add_token(token_type);
        let ghost step = emit(token_type@, old(self)@.current, old(self)@.line);
        assert(self@.tokens =~= after_step(old(self)@, step).tokens);
        assert(self@.errors =~= after_step(old(self)@, step).errors);
    }

    /// Takes one step: over white space, a comment, a token or a character
    /// that starts none.
    fn scan_token(&mut self)
        requires
            old(self).wf(),
            old(self)@.current < old(self)@.source.len(),
        ensures
            final(self).wf(),
            final(self)@ == after_step(
                old(self)@,
                scan_token_spec(old(self)@.source, old(self)@.current, old(self)@.line),
            ),
    {
        let ghost step = scan_token_spec(old(self)@.source, old(self)@.current, old(self)@.line);
        let start = self.current;
        let ch = self.advance();
        if ch == '\n' {
            if self.line < u32::MAX {
                self.line = self.line + 1;
            }
            assert(self@.tokens =~= after_step(old(self)@, step).tokens);
            assert(self@.errors =~= after_step(old(self)@, step).errors);
        } else if is_whitespace_char(ch) {
            assert(self@.tokens =~= after_step(old(self)@, step).tokens);
            assert(self@.errors =~= after_step(old(self)@, step).errors);
        } else if ch == '/' {
            if self.peek_at(self.current) == '/' {
                proof {
                    lemma_run_end_bounds(self@.source, start + 1, CharClass::NotNewline);
                }
                self.advance_while(CharClass::NotNewline);
                assert(self@.tokens =~= after_step(old(self)@, step).tokens);
                assert(self@.errors =~= after_step(old(self)@, step).errors);
            } else {
                self.single(TokenType::Slash);
            }
        } else if ch == '"' {
            self.string();
        } else if ch == '(' {
            self.single(TokenType::LeftParen);
        } else if ch == ')' {
            self.single(TokenType::RightParen);
        } else if ch == '{' {
            self.single(TokenType::LeftBrace);
        } else if ch == '}' {
            self.single(TokenType::RightBrace);
        } else if ch == ',' {
            self.single(TokenType::Comma);
        } else if ch == '.' {
            self.single(TokenType::Dot);
        } else if ch == '-' {
            self.single(TokenType::Minus);
        } else if ch == '+' {
            self.single(TokenType::Plus);
        } else if ch == ';' {
            self.single(TokenType::SemiColon);
        } else if ch == '*' {
            self.single(TokenType::Star);
        } else if ch == '!' {
            self.operator(TokenType::BangEqual, TokenType::Bang);
        } else if ch == '=' {
            self.operator(TokenType::EqualEqual, TokenType::Equal);
        } else if ch == '>' {
            self.operator(TokenType::GreaterEqual, TokenType::Greater);
        } else if ch == '<' {
            self.operator(TokenType::LessEqual, TokenType::Less);
        } else if is_digit_char(ch) {
            self.number(start);
        } else if is_letter_char(ch) || ch == '_' {
            self.identifier(start);
        } else {
            self.add_error(invalid_character(ch, self.line));
            assert(self@.tokens =~= after_step(old(self)@, step).tokens);
            assert(self@.errors =~= after_step(old(self)@, step).errors);
        }
    }

    /// Scans to the end of the text, adds the token for the end of the input,
    /// and hands out the tokens, or the errors if there are any.
    fn scan_tokens(self) -> (r: Result<Vec<Token>, Vec<String>>)
        requires
            self.wf(),
            self@.current == 0,
            self@.line == 1,
            self@.tokens.len() == 0,
            self@.errors.len() == 0,
        ensures
            match r {
                Ok(tokens) => scan_spec(self@.source) == Ok::<Seq<TokenView>, Seq<Seq<char>>>(
                    tokens_view(tokens@),
                ),
                Err(errors) => scan_spec(self@.source) == Err::<Seq<TokenView>, Seq<Seq<char>>>(
                    strings_view(errors@),
                ),
            },
    {
        let mut scanner = self;
        let ghost src = scanner@.source;
        let ghost all = scan_from(src, 0, 1);
        assert(scanner@.tokens + all.tokens =~= all.tokens);
        assert(scanner@.errors + all.errors =~= all.errors);
        while scanner.current < scanner.source.len()
            invariant
                scanner.wf(),
                scanner@.source == src,
                all == scan_from(src, 0, 1),
                all.tokens == scanner@.tokens + scan_from(
                    src,
                    scanner@.current,
                    scanner@.line,
                ).tokens,
                all.errors == scanner@.errors + scan_from(
                    src,
                    scanner@.current,
                    scanner@.line,
                ).errors,
                all.line == scan_from(src, scanner@.current, scanner@.line).line,
            decreases src.len() - scanner@.current,
        {
            let ghost before = scanner@;
            let ghost step = scan_token_spec(src, before.current, before.line);
            let ghost rest = scan_from(src, step.next, step.line);
            proof {
                lemma_step_advances(src, before.current, before.line);
            }
            scanner.scan_token();
            assert(scanner@.tokens + rest.tokens =~= before.tokens + (step_tokens(step, before.line)
                + rest.tokens));
            assert(scanner@.errors + rest.errors =~= before.errors + (step_errors(step)
                + rest.errors));
        }
        assert(scanner@.tokens + Seq::<TokenView>::empty() =~= scanner@.tokens);
        assert(scanner@.errors + Seq::<Seq<char>>::empty() =~= scanner@.errors);
        scanner.add_token(TokenType::Eof);
        if scanner.errors.len() == 0 {
            Ok(scanner.tokens)
        } else {
            Err(scanner.errors)
        }
    }
}

fn invalid_character(c: char, line: u32) -> (s: String)
    ensures
        s@ == invalid_character_message(c, line),
{
    let mut s = String::new();
    append(&mut s, "Invalid character ");
    s.push(c);
    append(&mut s, " at line ");
    append_decimal(&mut s, line as u64);
    assert(s@ =~= invalid_character_message(c, line));
    s
}

fn after_number(c: char, line: u32) -> (s: String)
    ensures
        s@ == after_number_message(c, line),
{
    let mut s = String::new();
    append(&mut s, "Unexpected character '");
    s.push(c);
    append(&mut s, "' after number at line ");
    append_decimal(&mut s, line as u64);
    assert(s@ =~= after_number_message(c, line));
    s
}

/// Scans `source`: its tokens, closed by one for the end of the input, or, if
/// anything was wrong, every error found.
pub fn scan(source: &str) -> (r: Result<Vec<Token>, Vec<String>>)
    ensures
        match r {
            Ok(tokens) => scan_spec(source@) == Ok::<Seq<TokenView>, Seq<Seq<char>>>(
                tokens_view(tokens@),
            ),
            Err(errors) => scan_spec(source@) == Err::<Seq<TokenView>, Seq<Seq<char>>>(
                strings_view(errors@),
            ),
        },
{
    let scanner = Scanner::new(source);
    scanner.scan_tokens()
}

} // verus!
