//! How tokens are written, and laws of the scanner: that scanning what was
//! written gives the tokens back, and where a number ends.

use crate::number::{binary32_of_decimal, is_digit};
use crate::scanner::{
    after_number_message, continues_word, emit, in_class, is_ascii_letter, keyword_of,
    lemma_run_end_bounds, lemma_step_advances, number_end, number_step, peek, run_end, scan_from,
    scan_spec, scan_token_spec, starts_word, step_errors, step_tokens, CharClass, Scanned, Step,
};
use crate::token::{token_text, TokenTypeView, TokenView};
use vstd::prelude::*;

verus! {

/// Whether `name` can be written as a word: an ASCII letter or `_`, and then
/// letters, numbers and `_`.
pub open spec fn is_word(name: Seq<char>) -> bool {
    &&& name.len() > 0
    &&& starts_word(name[0])
    &&& forall|i: int| 1 <= i < name.len() ==> continues_word(#[trigger] name[i])
}

/// Whether `text` is a numeral whose whole part has `k` digits: digits, and
/// after them nothing or a point and one digit or more.
pub open spec fn is_numeral_with(text: Seq<char>, k: int) -> bool {
    &&& 0 < k <= text.len()
    &&& forall|i: int| 0 <= i < k ==> is_digit(#[trigger] text[i])
    &&& k == text.len() || {
        &&& text[k] == '.'
        &&& k + 1 < text.len()
        &&& forall|i: int| k < i < text.len() ==> is_digit(#[trigger] text[i])
    }
}

/// Whether `text` is a numeral.
pub open spec fn is_numeral(text: Seq<char>) -> bool {
    exists|k: int| is_numeral_with(text, k)
}

/// Whether `kind` is a keyword.
pub open spec fn is_keyword(kind: TokenTypeView) -> bool {
    match kind {
        TokenTypeView::And
        | TokenTypeView::Class
        | TokenTypeView::Else
        | TokenTypeView::False
        | TokenTypeView::Fun
        | TokenTypeView::For
        | TokenTypeView::If
        | TokenTypeView::Nil
        | TokenTypeView::Or
        | TokenTypeView::Print
        | TokenTypeView::Return
        | TokenTypeView::Super
        | TokenTypeView::This
        | TokenTypeView::True
        | TokenTypeView::Var
        | TokenTypeView::While => true,
        _ => false,
    }
}

/// Whether `kind` is punctuation: one or two characters that are no word.
pub open spec fn is_punctuation(kind: TokenTypeView) -> bool {
    !is_keyword(kind) && !(kind is Identifier) && !(kind is Str) && !(kind is Number) && !(kind
        is Eof)
}

/// Whether `text` is a way to write a token of kind `kind`: punctuation and
/// keywords as they are, an identifier as a word that is no keyword, a string
/// between double quotes, with none inside, and a number as a numeral of its
/// value. The end of the input is not written.
pub open spec fn lexeme_of(text: Seq<char>, kind: TokenTypeView) -> bool {
    match kind {
        TokenTypeView::Identifier(name) => text == name && is_word(name) && keyword_of(name)
            is None,
        TokenTypeView::Str(content) => text == seq!['"'] + content + seq!['"'] && forall|i: int|
            0 <= i < content.len() ==> #[trigger] content[i] != '"',
        TokenTypeView::Number(value) => is_numeral(text) && binary32_of_decimal(text) == Some(
            value.bits,
        ),
        TokenTypeView::Eof => false,
        _ => text == token_text(kind),
    }
}

/// The texts one after the other, with a space after each.
pub open spec fn joined(texts: Seq<Seq<char>>) -> Seq<char>
    decreases texts.len(),
{
    if texts.len() == 0 {
        Seq::empty()
    } else {
        texts[0] + seq![' '] + joined(texts.drop_first())
    }
}

/// Tokens of the given kinds, all on `line`.
pub open spec fn on_line(kinds: Seq<TokenTypeView>, line: u32) -> Seq<TokenView> {
    Seq::new(kinds.len(), |i: int| TokenView { token_type: kinds[i], line })
}

/// A run over characters of the class ends where they end.
pub proof fn lemma_run_stops(src: Seq<char>, from: int, to: int, class: CharClass)
    requires
        0 <= from <= to <= src.len(),
        forall|i: int| from <= i < to ==> in_class(class, #[trigger] src[i]),
        to == src.len() || !in_class(class, src[to]),
    ensures
        run_end(src, from, class) == to,
    decreases to - from,
{
    if from < to {
        lemma_run_stops(src, from + 1, to, class);
    }
}

/// A run depends only on the text from its start on.
pub proof fn lemma_run_shift(src: Seq<char>, p: int, k: int, class: CharClass)
    requires
        0 <= p,
        0 <= k,
        p + k <= src.len(),
    ensures
        run_end(src, p + k, class) == p + run_end(src.skip(p), k, class),
    decreases src.len() - p - k,
{
    let tail = src.skip(p);
    if p + k < src.len() && in_class(class, src[p + k]) {
        assert(tail[k] == src[p + k]);
        lemma_run_shift(src, p, k + 1, class);
    } else if p + k < src.len() {
        assert(tail[k] == src[p + k]);
    }
}

/// A step depends only on the text from its start on.
#[verifier::rlimit(30)]
pub proof fn lemma_step_shift(src: Seq<char>, p: int, line: u32)
    requires
        0 <= p < src.len(),
    ensures
        scan_token_spec(src, p, line).next == scan_token_spec(src.skip(p), 0, line).next + p,
        scan_token_spec(src, p, line).line == scan_token_spec(src.skip(p), 0, line).line,
        scan_token_spec(src, p, line).token == scan_token_spec(src.skip(p), 0, line).token,
        scan_token_spec(src, p, line).error == scan_token_spec(src.skip(p), 0, line).error,
{
    let tail = src.skip(p);
    assert(tail[0] == src[p]);
    assert forall|k: int| 0 <= k implies peek(src, p + k) == peek(tail, k) by {
        if p + k < src.len() {
            assert(tail[k] == src[p + k]);
        }
    }
    assert(peek(src, p + 1) == peek(tail, 1));
    lemma_run_shift(src, p, 1, CharClass::Digit);
    lemma_run_shift(src, p, 1, CharClass::Word);
    lemma_run_shift(src, p, 1, CharClass::NotNewline);
    lemma_run_shift(src, p, 1, CharClass::NotQuote);
    lemma_run_end_bounds(tail, 1, CharClass::Digit);
    lemma_run_end_bounds(tail, 1, CharClass::Word);
    lemma_run_end_bounds(tail, 1, CharClass::NotQuote);
    let whole = run_end(tail, 1, CharClass::Digit);
    assert(peek(src, p + whole) == peek(tail, whole));
    assert(peek(src, p + (whole + 1)) == peek(tail, whole + 1));
    if whole + 1 <= tail.len() {
        lemma_run_shift(src, p, whole + 1, CharClass::Digit);
        lemma_run_end_bounds(tail, whole + 1, CharClass::Digit);
    }
    let end = number_end(tail, 0);
    assert(number_end(src, p) == p + end);
    assert(peek(src, p + end) == peek(tail, end));
    assert(src.subrange(p, p + end) =~= tail.subrange(0, end));
    let word_end = run_end(tail, 1, CharClass::Word);
    assert(src.subrange(p, p + word_end) =~= tail.subrange(0, word_end));
    let quote = run_end(tail, 1, CharClass::NotQuote);
    assert(src.subrange(p + 1, p + quote) =~= tail.subrange(1, quote));
}

/// What is scanned from a position on depends only on the text from there on.
pub proof fn lemma_scan_shift(src: Seq<char>, p: int, line: u32)
    requires
        0 <= p <= src.len(),
    ensures
        scan_from(src, p, line) == scan_from(src.skip(p), 0, line),
    decreases src.len() - p,
{
    let tail = src.skip(p);
    if p < src.len() {
        let a = scan_token_spec(src, p, line);
        let b = scan_token_spec(tail, 0, line);
        lemma_step_shift(src, p, line);
        lemma_step_advances(src, p, line);
        lemma_step_advances(tail, 0, line);
        lemma_scan_shift(src, a.next, a.line);
        lemma_scan_shift(tail, b.next, b.line);
        assert(tail.skip(b.next) =~= src.skip(a.next));
        assert(step_tokens(a, line) == step_tokens(b, line));
        assert(step_errors(a) == step_errors(b));
    }
}

/// The step that reads one token.
pub open spec fn reads(kind: TokenTypeView, next: int, line: u32) -> Step {
    Step { next, line, token: Some(kind), error: None }
}

/// Whether `tail` can stand after a token without touching it: it is empty,
/// or it begins with a space.
pub open spec fn ends_token(tail: Seq<char>) -> bool {
    tail.len() == 0 || tail[0] == ' '
}

/// Scanning a word that is followed by a space or by nothing reads the word.
proof fn lemma_word_step(text: Seq<char>, tail: Seq<char>, line: u32)
    requires
        ends_token(tail),
        is_word(text),
    ensures
        run_end(text + tail, 1, CharClass::Word) == text.len(),
        (text + tail).subrange(0, text.len() as int) == text,
        (text + tail)[0] == text[0],
{
    let src = text + tail;
    assert forall|i: int| 1 <= i < text.len() implies in_class(
        CharClass::Word,
        #[trigger] src[i],
    ) by {
        assert(src[i] == text[i]);
    }
    assert(tail.len() > 0 ==> src[text.len() as int] == tail[0]);
    lemma_run_stops(src, 1, text.len() as int, CharClass::Word);
    assert(src.subrange(0, text.len() as int) =~= text);
}

/// Scanning an identifier that is followed by a space or by nothing reads the identifier.
proof fn lemma_identifier_step(name: Seq<char>, tail: Seq<char>, line: u32)
    requires
        ends_token(tail),
        is_word(name),
        keyword_of(name) is None,
    ensures
        scan_token_spec(name + tail, 0, line) == reads(
            TokenTypeView::Identifier(name),
            name.len() as int,
            line,
        ),
{
    lemma_word_step(name, tail, line);
}

/// Scanning a string that is followed by a space or by nothing reads the string.
proof fn lemma_string_step(content: Seq<char>, tail: Seq<char>, line: u32)
    requires
        ends_token(tail),
        forall|i: int| 0 <= i < content.len() ==> #[trigger] content[i] != '"',
    ensures
        scan_token_spec(seq!['"'] + content + seq!['"'] + tail, 0, line) == reads(
            TokenTypeView::Str(content),
            content.len() as int + 2,
            line,
        ),
{
    let text = seq!['"'] + content + seq!['"'];
    let src = text + tail;
    let close: int = content.len() as int + 1;
    assert(src[0] == '"');
    assert forall|i: int| 1 <= i < close implies in_class(
        CharClass::NotQuote,
        #[trigger] src[i],
    ) by {
        assert(src[i] == content[i - 1]);
    }
    assert(src[close] == '"');
    lemma_run_stops(src, 1, close, CharClass::NotQuote);
    assert(src.subrange(1, close) =~= content);
}

/// Scanning a numeral that is followed by a space or by nothing reads the number that the
/// numeral stands for.
proof fn lemma_number_step(text: Seq<char>, bits: u32, tail: Seq<char>, line: u32)
    requires
        ends_token(tail),
        is_numeral(text),
        binary32_of_decimal(text) == Some(bits),
    ensures
        scan_token_spec(text + tail, 0, line) == reads(
            TokenTypeView::Number(crate::number::Number { bits }),
            text.len() as int,
            line,
        ),
{
    let src = text + tail;
    let k = choose|k: int| is_numeral_with(text, k);
    let len = text.len() as int;
    assert forall|i: int| 0 <= i < len implies src[i] == text[i] by {}
    assert(tail.len() > 0 ==> src[len] == tail[0]);
    assert(is_digit(text[0]));
    assert forall|i: int| 1 <= i < k implies in_class(CharClass::Digit, #[trigger] src[i]) by {
        assert(src[i] == text[i]);
    }
    assert(k == len || src[k] == '.');
    assert(peek(src, len) == ' ' || peek(src, len) == '\0');
    lemma_run_stops(src, 1, k, CharClass::Digit);
    if k < len {
        assert(is_digit(text[k + 1]));
        assert(src[k + 1] == text[k + 1]);
        assert forall|i: int| k + 1 <= i < len implies in_class(
            CharClass::Digit,
            #[trigger] src[i],
        ) by {
            assert(src[i] == text[i]);
        }
        lemma_run_stops(src, k + 1, len, CharClass::Digit);
    }
    assert(number_end(src, 0) == len);
    assert(src.subrange(0, len) =~= text);
}

/// Scanning punctuation that is followed by a space or by nothing reads it.
#[verifier::rlimit(30)]
proof fn lemma_punctuation_step(kind: TokenTypeView, tail: Seq<char>, line: u32)
    requires
        ends_token(tail),
        is_punctuation(kind),
    ensures
        scan_token_spec(token_text(kind) + tail, 0, line) == reads(
            kind,
            token_text(kind).len() as int,
            line,
        ),
{
    reveal_strlit("(");
    reveal_strlit(")");
    reveal_strlit("{");
    reveal_strlit("}");
    reveal_strlit(",");
    reveal_strlit(".");
    reveal_strlit("-");
    reveal_strlit("+");
    reveal_strlit(";");
    reveal_strlit("/");
    reveal_strlit("*");
    reveal_strlit("!");
    reveal_strlit("!=");
    reveal_strlit("=");
    reveal_strlit("==");
    reveal_strlit(">");
    reveal_strlit(">=");
    reveal_strlit("<");
    reveal_strlit("<=");
    let text = token_text(kind);
    let src = text + tail;
    assert(src[0] == text[0]);
    if text.len() == 1 {
        assert(tail.len() > 0 ==> src[1] == tail[0]);
        assert(peek(src, 1) == ' ' || peek(src, 1) == '\0');
    } else {
        assert(src[1] == text[1]);
    }
}

/// Scanning a keyword that is followed by a space or by nothing reads the keyword.
#[verifier::rlimit(30)]
proof fn lemma_keyword_step(kind: TokenTypeView, tail: Seq<char>, line: u32)
    requires
        ends_token(tail),
        is_keyword(kind),
    ensures
        scan_token_spec(token_text(kind) + tail, 0, line) == reads(
            kind,
            token_text(kind).len() as int,
            line,
        ),
{
    reveal_strlit("and");
    reveal_strlit("class");
    reveal_strlit("else");
    reveal_strlit("false");
    reveal_strlit("fun");
    reveal_strlit("for");
    reveal_strlit("if");
    reveal_strlit("nil");
    reveal_strlit("or");
    reveal_strlit("print");
    reveal_strlit("return");
    reveal_strlit("super");
    reveal_strlit("this");
    reveal_strlit("true");
    reveal_strlit("var");
    reveal_strlit("while");
    let text = token_text(kind);
    assert(is_word(text));
    lemma_word_step(text, tail, line);
    assert(keyword_of(text) == Some(kind));
}

/// Scanning a token as it is written, followed by a space or by nothing, reads the token.
pub proof fn lemma_lexeme_step(text: Seq<char>, kind: TokenTypeView, tail: Seq<char>, line: u32)
    requires
        ends_token(tail),
        lexeme_of(text, kind),
    ensures
        scan_token_spec(text + tail, 0, line) == reads(kind, text.len() as int, line),
{
    match kind {
        TokenTypeView::Identifier(name) => lemma_identifier_step(name, tail, line),
        TokenTypeView::Str(content) => lemma_string_step(content, tail, line),
        TokenTypeView::Number(value) => lemma_number_step(text, value.bits, tail, line),
        TokenTypeView::Eof => {},
        _ => {
            if is_keyword(kind) {
                lemma_keyword_step(kind, tail, line);
            } else {
                lemma_punctuation_step(kind, tail, line);
            }
        },
    }
}

/// Scanning tokens as they are written, with a space after each, gives the
/// tokens back, all on the line on which the scan began, and no error.
#[verifier::rlimit(30)]
pub proof fn lemma_scan_joined(texts: Seq<Seq<char>>, kinds: Seq<TokenTypeView>, line: u32)
    requires
        texts.len() == kinds.len(),
        forall|i: int| 0 <= i < texts.len() ==> lexeme_of(#[trigger] texts[i], kinds[i]),
    ensures
        scan_from(joined(texts), 0, line) == (Scanned {
            tokens: on_line(kinds, line),
            errors: Seq::empty(),
            line,
        }),
    decreases texts.len(),
{
    if texts.len() == 0 {
        assert(on_line(kinds, line) =~= Seq::empty());
    } else {
        let text = texts[0];
        let kind = kinds[0];
        let rest = joined(texts.drop_first());
        let src = joined(texts);
        let n = text.len() as int;
        let tail = seq![' '] + rest;
        assert(src =~= text + tail);
        assert(lexeme_of(texts[0], kinds[0]));
        assert(n > 0) by {
            lemma_lexeme_nonempty(text, kind);
        }
        lemma_lexeme_step(text, kind, tail, line);
        assert(src[n] == ' ');
        assert(scan_token_spec(src, n, line) == Step {
            next: n + 1,
            line,
            token: None,
            error: None,
        });
        lemma_scan_shift(src, n + 1, line);
        assert(src.skip(n + 1) =~= rest);
        assert forall|i: int| 0 <= i < texts.drop_first().len() implies lexeme_of(
            #[trigger] texts.drop_first()[i],
            kinds.drop_first()[i],
        ) by {
            assert(lexeme_of(texts[i + 1], kinds[i + 1]));
        }
        lemma_scan_joined(texts.drop_first(), kinds.drop_first(), line);
        let after_space = scan_from(src, n + 1, line);
        let at_space = scan_from(src, n, line);
        assert(at_space.tokens =~= after_space.tokens);
        assert(at_space.errors =~= after_space.errors);
        let all = scan_from(src, 0, line);
        assert(all.tokens =~= seq![TokenView { token_type: kind, line }] + at_space.tokens);
        assert(all.errors =~= at_space.errors);
        assert(all.tokens =~= on_line(kinds, line));
    }
}

/// A token is written with at least one character.
#[verifier::rlimit(30)]
pub proof fn lemma_lexeme_nonempty(text: Seq<char>, kind: TokenTypeView)
    requires
        lexeme_of(text, kind),
    ensures
        text.len() > 0,
{
    reveal_strlit("(");
    reveal_strlit(")");
    reveal_strlit("{");
    reveal_strlit("}");
    reveal_strlit(",");
    reveal_strlit(".");
    reveal_strlit("-");
    reveal_strlit("+");
    reveal_strlit(";");
    reveal_strlit("/");
    reveal_strlit("*");
    reveal_strlit("!");
    reveal_strlit("!=");
    reveal_strlit("=");
    reveal_strlit("==");
    reveal_strlit(">");
    reveal_strlit(">=");
    reveal_strlit("<");
    reveal_strlit("<=");
    reveal_strlit("and");
    reveal_strlit("class");
    reveal_strlit("else");
    reveal_strlit("false");
    reveal_strlit("fun");
    reveal_strlit("for");
    reveal_strlit("if");
    reveal_strlit("nil");
    reveal_strlit("or");
    reveal_strlit("print");
    reveal_strlit("return");
    reveal_strlit("super");
    reveal_strlit("this");
    reveal_strlit("true");
    reveal_strlit("var");
    reveal_strlit("while");
    if kind is Number {
        let k = choose|k: int| is_numeral_with(text, k);
    }
    if kind is Str {
        assert((seq!['"'] + kind->Str_0 + seq!['"']).len() > 0);
    }
}

/// The texts one after the other, with one space between each two.
pub open spec fn separated(texts: Seq<Seq<char>>) -> Seq<char>
    decreases texts.len(),
{
    if texts.len() == 0 {
        Seq::empty()
    } else if texts.len() == 1 {
        texts[0]
    } else {
        texts[0] + seq![' '] + separated(texts.drop_first())
    }
}

/// Scanning tokens as they are written, with one space between each two,
/// gives the tokens back, all on the line on which the scan began, and no
/// error.
#[verifier::rlimit(30)]
pub proof fn lemma_scan_separated(texts: Seq<Seq<char>>, kinds: Seq<TokenTypeView>, line: u32)
    requires
        texts.len() == kinds.len(),
        forall|i: int| 0 <= i < texts.len() ==> lexeme_of(#[trigger] texts[i], kinds[i]),
    ensures
        scan_from(separated(texts), 0, line) == (Scanned {
            tokens: on_line(kinds, line),
            errors: Seq::empty(),
            line,
        }),
    decreases texts.len(),
{
    if texts.len() == 0 {
        assert(on_line(kinds, line) =~= Seq::empty());
    } else {
        let text = texts[0];
        let kind = kinds[0];
        let src = separated(texts);
        let n = text.len() as int;
        assert(lexeme_of(texts[0], kinds[0]));
        assert(n > 0) by {
            lemma_lexeme_nonempty(text, kind);
        }
        let all = scan_from(src, 0, line);
        if texts.len() == 1 {
            let tail = Seq::<char>::empty();
            assert(src =~= text + tail);
            lemma_lexeme_step(text, kind, tail, line);
            let at_end = scan_from(src, n, line);
            assert(all.tokens =~= seq![TokenView { token_type: kind, line }] + at_end.tokens);
            assert(all.errors =~= at_end.errors);
            assert(all.tokens =~= on_line(kinds, line));
        } else {
            let rest = separated(texts.drop_first());
            let tail = seq![' '] + rest;
            assert(src =~= text + tail);
            lemma_lexeme_step(text, kind, tail, line);
            assert(src[n] == ' ');
            assert(scan_token_spec(src, n, line) == Step {
                next: n + 1,
                line,
                token: None,
                error: None,
            });
            lemma_scan_shift(src, n + 1, line);
            assert(src.skip(n + 1) =~= rest);
            assert forall|i: int| 0 <= i < texts.drop_first().len() implies lexeme_of(
                #[trigger] texts.drop_first()[i],
                kinds.drop_first()[i],
            ) by {
                assert(lexeme_of(texts[i + 1], kinds[i + 1]));
            }
            lemma_scan_separated(texts.drop_first(), kinds.drop_first(), line);
            let after_space = scan_from(src, n + 1, line);
            let at_space = scan_from(src, n, line);
            assert(at_space.tokens =~= after_space.tokens);
            assert(at_space.errors =~= after_space.errors);
            assert(all.tokens =~= seq![TokenView { token_type: kind, line }] + at_space.tokens);
            assert(all.errors =~= at_space.errors);
            assert(all.tokens =~= on_line(kinds, line));
        }
    }
}

/// Scanning tokens as they are written, with a space after each, gives the
/// tokens back, all on line 1 and closed by the token for the end of the
/// input.
pub proof fn lemma_scan_round_trip(texts: Seq<Seq<char>>, kinds: Seq<TokenTypeView>)
    requires
        texts.len() == kinds.len(),
        forall|i: int| 0 <= i < texts.len() ==> lexeme_of(#[trigger] texts[i], kinds[i]),
    ensures
        scan_spec(joined(texts)) == Ok::<Seq<TokenView>, Seq<Seq<char>>>(
            on_line(kinds, 1).push(TokenView { token_type: TokenTypeView::Eof, line: 1 }),
        ),
{
    lemma_scan_joined(texts, kinds, 1);
}

/// Scanning tokens as they are written, with one space between each two and
/// none after the last, gives the tokens back, all on line 1 and closed by the
/// token for the end of the input.
pub proof fn lemma_scan_round_trip_separated(texts: Seq<Seq<char>>, kinds: Seq<TokenTypeView>)
    requires
        texts.len() == kinds.len(),
        forall|i: int| 0 <= i < texts.len() ==> lexeme_of(#[trigger] texts[i], kinds[i]),
    ensures
        scan_spec(separated(texts)) == Ok::<Seq<TokenView>, Seq<Seq<char>>>(
            on_line(kinds, 1).push(TokenView { token_type: TokenTypeView::Eof, line: 1 }),
        ),
{
    lemma_scan_separated(texts, kinds, 1);
}

/// A point that no digit follows is no part of a number: after digits, such
/// a point and anything else, the step over the number ends on the point,
/// reads the digits alone and finds no error, and the next step reads the
/// point as a token of its own.
pub proof fn lemma_point_ends_number(src: Seq<char>, start: int, point: int, line: u32)
    requires
        0 <= start < point < src.len(),
        forall|i: int| start <= i < point ==> is_digit(#[trigger] src[i]),
        src[point] == '.',
        !is_digit(peek(src, point + 1)),
    ensures
        scan_token_spec(src, start, line) == number_step(src, start, line),
        number_step(src, start, line).next == point,
        number_step(src, start, line).error is None,
        number_step(src, start, line).token == match binary32_of_decimal(
            src.subrange(start, point),
        ) {
            Some(bits) => Some(TokenTypeView::Number(crate::number::Number { bits })),
            None => None,
        },
        scan_token_spec(src, point, line) == emit(TokenTypeView::Dot, point + 1, line),
{
    assert(is_digit(src[start]));
    assert forall|i: int| start + 1 <= i < point implies in_class(
        CharClass::Digit,
        #[trigger] src[i],
    ) by {
        assert(is_digit(src[i]));
    }
    lemma_run_stops(src, start + 1, point, CharClass::Digit);
}

/// A letter that touches the end of a number is an error, and only that: the
/// step over the number reads the number all the same, adds the one error for
/// the letter, and ends where the letter stands, so that the scan goes on
/// with it. The scan of a text in which this happens gives errors, no tokens.
pub proof fn lemma_letter_after_number(src: Seq<char>, start: int, line: u32)
    requires
        0 <= start < src.len(),
        is_digit(src[start]),
        is_ascii_letter(peek(src, number_end(src, start))),
    ensures
        scan_token_spec(src, start, line) == number_step(src, start, line),
        number_step(src, start, line).next == number_end(src, start),
        number_step(src, start, line).error == Some(
            after_number_message(peek(src, number_end(src, start)), line),
        ),
        number_step(src, start, line).token == match binary32_of_decimal(
            src.subrange(start, number_end(src, start)),
        ) {
            Some(bits) => Some(TokenTypeView::Number(crate::number::Number { bits })),
            None => None,
        },
        scan_from(src, start, line).errors.len() > 0,
        start == 0 && line == 1 ==> scan_spec(src) is Err,
{
    lemma_step_advances(src, start, line);
}

} // verus!
