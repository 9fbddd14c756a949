//! The tokenizer: an ordered list of lexical rules, each a pattern and the
//! kind of token that it yields, tried in order at a cursor into the source.

use crate::decimal::{
    append_nat, digits_value, is_digit_run, lemma_twenty_digits_overflow, nat_text, parse_number,
    parsed_number,
};
use crate::token::{Token, TokenView};
use regex::Regex;
use vstd::prelude::*;
use vstd::string::*;
use vstd::utf8::*;

verus! {

/// What a lexical rule yields where its pattern matches.
#[derive(Debug, Clone, Copy, PartialEq, Eq)]
pub enum TokenizerSpecType {
    Number,
    String,
    SimpleType,
    Pipe,
    /// Blanks and comments: the matched text is passed over without a token.
    Skip,
    Tab,
    Variable,
    Colon,
    Equal,
}

/// One lexical rule: a pattern and the kind of token that it yields.
pub struct TokenizerSpec {
    pattern: &'static str,
    kind: TokenizerSpecType,
}

/// The mathematical value of a [`TokenizerSpec`].
pub ghost struct Rule {
    pub pattern: Seq<char>,
    pub kind: TokenizerSpecType,
}

impl View for TokenizerSpec {
    type V = Rule;

    closed spec fn view(&self) -> Rule {
        Rule { pattern: self.pattern@, kind: self.kind }
    }
}

impl TokenizerSpec {
    /// The rule that yields `kind` where `pattern` matches.
    pub fn new(pattern: &'static str, kind: TokenizerSpecType) -> (spec: Self)
        ensures
            spec@ == (Rule { pattern: pattern@, kind }),
    {
        TokenizerSpec { pattern, kind }
    }
}

/// Why no token could be read at the cursor.
#[derive(Debug, Clone, PartialEq, Eq)]
pub enum LexError {
    /// No rule matches at `index`, where `symbol` stands.
    UnexpectedSymbol { symbol: char, index: usize },
    /// No rule matches at `index`, and no character stands there.
    UnexpectedSymbolAt { index: usize },
    /// A run of digits that denotes no 64-bit signed integer.
    NumberTooLarge { text: String },
}

/// The mathematical value of a [`LexError`].
pub ghost enum LexErrorView {
    UnexpectedSymbol { symbol: char, index: usize },
    UnexpectedSymbolAt { index: usize },
    NumberTooLarge { text: Seq<char> },
}

impl LexErrorView {
    /// The message that reports the error.
    pub open spec fn text(self) -> Seq<char> {
        match self {
            LexErrorView::UnexpectedSymbol { symbol, index } => "Unexpected symbol "@.push(symbol)
                + " (at index "@ + nat_text(index as nat) + ")"@,
            LexErrorView::UnexpectedSymbolAt { index } => "Unexpected symbol at index "@ + nat_text(
                index as nat,
            ),
            LexErrorView::NumberTooLarge { text } => text + " is too large for type 'Number'"@,
        }
    }
}

impl View for LexError {
    type V = LexErrorView;

    open spec fn view(&self) -> LexErrorView {
        match self {
            LexError::UnexpectedSymbol { symbol, index } => LexErrorView::UnexpectedSymbol {
                symbol: *symbol,
                index: *index,
            },
            LexError::UnexpectedSymbolAt { index } => LexErrorView::UnexpectedSymbolAt {
                index: *index,
            },
            LexError::NumberTooLarge { text } => LexErrorView::NumberTooLarge { text: text@ },
        }
    }
}

/// Appends one character with `String::push`, which adds `symbol` after the
/// last character of `out` and changes nothing else.
#[verifier::external_body]
fn push_char(out: &mut String, symbol: char)
    ensures
        final(out)@ == old(out)@.push(symbol),
{
    out.push(symbol);
}

impl LexError {
    /// The message that reports the error.
    pub fn to_string(&self) -> (text: String)
        ensures
            text@ == self@.text(),
    {
        match self {
            LexError::UnexpectedSymbol { symbol, index } => {
                let mut text = String::from_str("Unexpected symbol ");
                push_char(&mut text, *symbol);
                text.append(" (at index ");
                append_nat(&mut text, *index as u64);
                text.append(")");
                text
            },
            LexError::UnexpectedSymbolAt { index } => {
                let mut text = String::from_str("Unexpected symbol at index ");
                append_nat(&mut text, *index as u64);
                text
            },
            LexError::NumberTooLarge { text } => {
                let mut message = text.clone();
                message.append(" is too large for type 'Number'");
                message
            },
        }
    }
}

/// The byte offsets at which the leftmost match of the regular expression
/// `pattern` starts and ends in the UTF-8 encoding of `haystack`; nothing
/// where `pattern` is no valid expression or matches nowhere.
pub uninterp spec fn regex_find(pattern: Seq<char>, haystack: Seq<char>) -> Option<(usize, usize)>;

/// Compiles `pattern` with `regex::Regex::new` and searches `haystack` with
/// `Regex::captures`, of which it hands on the whole match (group 0) by its
/// `Match::start` and `Match::end`. The contract names that result and adds
/// what the crate documents of every match: the start is not behind the end,
/// the end is within the haystack, and both lie on character boundaries.
#[verifier::external_body]
fn find_match(pattern: &str, haystack: &str) -> (found: Option<(usize, usize)>)
    ensures
        found == regex_find(pattern@, haystack@),
        found matches Some((start, end)) ==> {
            &&& start <= end <= haystack.spec_bytes().len()
            &&& is_char_boundary(haystack.spec_bytes(), start as int)
            &&& is_char_boundary(haystack.spec_bytes(), end as int)
        },
{
    let regex = Regex::new(pattern).ok()?;
    let whole = regex.captures(haystack)?.get(0)?;
    Some((whole.start(), whole.end()))
}

/// The text that the first `n` bytes of the UTF-8 encoding of `text` hold.
pub open spec fn utf8_prefix(text: Seq<char>, n: int) -> Seq<char> {
    decode_utf8(encode_utf8(text).subrange(0, n))
}

/// The text that the UTF-8 encoding of `text` holds from byte `n` on.
pub open spec fn utf8_suffix(text: Seq<char>, n: int) -> Seq<char> {
    decode_utf8(encode_utf8(text).subrange(n, encode_utf8(text).len() as int))
}

/// Whether the first `n` bytes of the encoding of `text` are a non-empty
/// prefix that ends between two characters.
pub open spec fn is_cut(text: Seq<char>, n: int) -> bool {
    &&& 0 < n <= encode_utf8(text).len()
    &&& is_char_boundary(encode_utf8(text), n)
}

/// Whether `text` can be the lexeme of a token of this kind: a string literal
/// holds at least its two delimiters.
pub open spec fn fits(kind: TokenizerSpecType, text: Seq<char>) -> bool {
    kind is String ==> text.len() >= 2
}

/// The token, or the error, that a rule of this kind yields for the lexeme
/// `text`. A number is the value of its digits; a string literal is the text
/// between its first and last character; a type name and an identifier are the
/// lexeme itself; a skip yields nothing.
pub open spec fn token_of(kind: TokenizerSpecType, text: Seq<char>) -> Result<
    Option<TokenView>,
    LexErrorView,
> {
    match kind {
        TokenizerSpecType::Number => match parsed_number(text) {
            Some(value) => Ok(Some(TokenView::Number(value))),
            None => Err(LexErrorView::NumberTooLarge { text }),
        },
        TokenizerSpecType::String => Ok(
            Some(TokenView::String(text.subrange(1, text.len() - 1))),
        ),
        TokenizerSpecType::SimpleType => Ok(Some(TokenView::SimpleType(text))),
        TokenizerSpecType::Pipe => Ok(Some(TokenView::Pipe)),
        TokenizerSpecType::Skip => Ok(None),
        TokenizerSpecType::Tab => Ok(Some(TokenView::Tab)),
        TokenizerSpecType::Variable => Ok(Some(TokenView::Variable(text))),
        TokenizerSpecType::Colon => Ok(Some(TokenView::Colon)),
        TokenizerSpecType::Equal => Ok(Some(TokenView::Equal)),
    }
}

/// The mathematical value of what [`Tokenizer::get_next_token`] returns.
pub open spec fn outcome_view(outcome: Result<Option<Token>, LexError>) -> Result<
    Option<TokenView>,
    LexErrorView,
> {
    match outcome {
        Ok(Some(token)) => Ok(Some(token@)),
        Ok(None) => Ok(None),
        Err(error) => Err(error@),
    }
}

/// Whether `text` can be the lexeme of a token of this kind.
pub fn accepts(kind: TokenizerSpecType, text: &str) -> (fit: bool)
    ensures
        fit == fits(kind, text@),
{
    match kind {
        TokenizerSpecType::String => text.unicode_len() >= 2,
        _ => true,
    }
}

/// Builds the token that a rule of this kind yields for the lexeme `text`.
pub fn make_token(kind: TokenizerSpecType, text: &str) -> (outcome: Result<Option<Token>, LexError>)
    requires
        fits(kind, text@),
    ensures
        outcome_view(outcome) == token_of(kind, text@),
{
    match kind {
        TokenizerSpecType::Number => match parse_number(text) {
            Some(value) => Ok(Some(Token::Number(value))),
            None => Err(LexError::NumberTooLarge { text: text.to_owned() }),
        },
        TokenizerSpecType::String => {
            let n: usize = text.unicode_len();
            Ok(Some(Token::String(text.substring_char(1, n - 1).to_owned())))
        },
        TokenizerSpecType::SimpleType => Ok(Some(Token::SimpleType(text.to_owned()))),
        TokenizerSpecType::Pipe => Ok(Some(Token::Pipe)),
        TokenizerSpecType::Skip => Ok(None),
        TokenizerSpecType::Tab => Ok(Some(Token::Tab)),
        TokenizerSpecType::Variable => Ok(Some(Token::Variable(text.to_owned()))),
        TokenizerSpecType::Colon => Ok(Some(Token::Colon)),
        TokenizerSpecType::Equal => Ok(Some(Token::Equal)),
    }
}

/// The number of bytes that a rule of this kind claims at the front of
/// `rest`, given what the search for its pattern found: the end of the match,
/// where the match starts at the first byte, is a non-empty prefix of `rest`
/// that ends between two characters, and fits the kind. Any other match, and
/// no match, claims nothing.
pub open spec fn claim_of(
    kind: TokenizerSpecType,
    rest: Seq<char>,
    found: Option<(usize, usize)>,
) -> Option<usize> {
    match found {
        Some((start, end)) => if start == 0 && is_cut(rest, end as int) && fits(
            kind,
            utf8_prefix(rest, end as int),
        ) {
            Some(end)
        } else {
            None
        },
        None => None,
    }
}

/// The number of bytes that `rule` claims at the front of `rest`: what the
/// match of its pattern there claims for its kind.
pub open spec fn claim(rule: Rule, rest: Seq<char>) -> Option<usize> {
    claim_of(rule.kind, rest, regex_find(rule.pattern, rest))
}

/// Decides what a rule of this kind claims at the front of `rest`, given
/// the match `found` of its pattern.
pub fn claimed(kind: TokenizerSpecType, rest: &str, found: Option<(usize, usize)>) -> (length:
    Option<usize>)
    ensures
        length == claim_of(kind, rest@, found),
{
    match found {
        Some((start, end)) => {
            if start == 0 && 0 < end && end <= rest.as_bytes().len() && rest.is_char_boundary(
                end,
            ) {
                let (text, _) = rest.split_at(end);
                proof {
                    lemma_text_of_bytes(text);
                }
                if accepts(kind, text) {
                    Some(end)
                } else {
                    None
                }
            } else {
                None
            }
        },
        None => None,
    }
}

/// The first rule at or after position `from` that claims a prefix of `rest`.
pub open spec fn first_claim(rules: Seq<Rule>, rest: Seq<char>, from: nat) -> Option<nat>
    decreases rules.len() - from,
{
    if from >= rules.len() {
        None
    } else if claim(rules[from as int], rest) is Some {
        Some(from)
    } else {
        first_claim(rules, rest, from + 1)
    }
}

/// What [`first_claim`] finds is a rule that claims, and no rule between
/// `from` and it does.
pub proof fn lemma_first_claim(rules: Seq<Rule>, rest: Seq<char>, from: nat)
    ensures
        match first_claim(rules, rest, from) {
            Some(at) => {
                &&& from <= at < rules.len()
                &&& claim(rules[at as int], rest) is Some
                &&& forall|i: int| from <= i < at ==> claim(#[trigger] rules[i], rest) is None
            },
            None => forall|i: int|
                from <= i < rules.len() ==> claim(#[trigger] rules[i], rest) is None,
        },
    decreases rules.len() - from,
{
    if from < rules.len() && claim(rules[from as int], rest) is None {
        lemma_first_claim(rules, rest, from + 1);
    }
}

/// The mathematical value of a [`Tokenizer`]: its rules in order, the source
/// text, and the cursor as a byte offset into the UTF-8 encoding of the source.
pub ghost struct Lexer {
    pub rules: Seq<Rule>,
    pub source: Seq<char>,
    pub cursor: nat,
}

/// Where the next token lies and what it is.
pub ghost struct Scan {
    /// Where the cursor stands once blanks and comments are passed over.
    pub start: nat,
    /// Where the cursor stands once the token is consumed as well.
    pub end: nat,
    /// The token, nothing at the end of the input, or the error.
    pub outcome: Result<Option<TokenView>, LexErrorView>,
}

impl Lexer {
    /// The length of the source in bytes.
    pub open spec fn len(self) -> nat {
        encode_utf8(self.source).len()
    }

    /// The source is no longer than a machine can address, and the cursor
    /// lies within it, between two characters.
    pub open spec fn wf(self) -> bool {
        &&& self.len() <= usize::MAX
        &&& self.cursor <= self.len()
        &&& is_char_boundary(encode_utf8(self.source), self.cursor as int)
    }

    /// The text from the cursor on.
    pub open spec fn rest(self) -> Seq<char> {
        utf8_suffix(self.source, self.cursor as int)
    }

    /// The number of bytes from the cursor to the end of the source.
    pub open spec fn left(self) -> nat {
        if self.cursor <= self.len() {
            (self.len() - self.cursor) as nat
        } else {
            0
        }
    }

    /// The same rules and source with the cursor at `cursor`.
    pub open spec fn at(self, cursor: nat) -> Lexer {
        Lexer { rules: self.rules, source: self.source, cursor }
    }

    /// The lexer after a look at the next token: blanks and comments are
    /// passed over, the token is not.
    pub open spec fn peeked(self) -> Lexer {
        self.at(scan(self).start)
    }

    /// The lexer after the next token is consumed.
    pub open spec fn consumed(self) -> Lexer {
        self.at(scan(self).end)
    }
}

/// The next token from the cursor on. At the end of the input there is none.
/// Elsewhere the rules are tried in order and the first that claims a prefix
/// of the rest decides: a skip moves the cursor behind its lexeme and the scan
/// goes on from there; any other rule yields its token, which ends behind its
/// lexeme. Where no rule claims anything, the character at the cursor is
/// reported.
pub open spec fn scan(lexer: Lexer) -> Scan
    decreases lexer.left(),
{
    if lexer.cursor >= lexer.len() {
        Scan { start: lexer.cursor, end: lexer.cursor, outcome: Ok(None) }
    } else {
        let rest = lexer.rest();
        match first_claim(lexer.rules, rest, 0) {
            None => Scan {
                start: lexer.cursor,
                end: lexer.cursor,
                outcome: Err(
                    LexErrorView::UnexpectedSymbol {
                        symbol: rest[0],
                        index: lexer.cursor as usize,
                    },
                ),
            },
            Some(at) => {
                let rule = lexer.rules[at as int];
                let length = claim(rule, rest).unwrap();
                if rule.kind is Skip {
                    proof {
                        lemma_first_claim(lexer.rules, rest, 0);
                    }
                    scan(lexer.at((lexer.cursor + length) as nat))
                } else {
                    Scan {
                        start: lexer.cursor,
                        end: (lexer.cursor + length) as nat,
                        outcome: token_of(rule.kind, utf8_prefix(rest, length as int)),
                    }
                }
            },
        }
    }
}

/// The text of a string slice is what its bytes decode to.
proof fn lemma_text_of_bytes(text: &str)
    ensures
        text@ == decode_utf8(text.spec_bytes()),
        valid_utf8(text.spec_bytes()),
{
    broadcast use {encode_utf8_decode_utf8, encode_utf8_valid_utf8};

}

/// A cut of the rest of a well-formed lexer is a place to which the cursor
/// can move: it lies within the source, between two characters, and the rest
/// from there is what is left of the old rest behind the cut.
pub proof fn lemma_advance(lexer: Lexer, length: int)
    requires
        lexer.wf(),
        is_cut(lexer.rest(), length),
    ensures
        lexer.cursor + length <= lexer.len(),
        lexer.at((lexer.cursor + length) as nat).wf(),
        encode_utf8(lexer.rest()) == encode_utf8(lexer.source).subrange(
            lexer.cursor as int,
            lexer.len() as int,
        ),
{
    broadcast use {
        encode_utf8_valid_utf8,
        decode_utf8_encode_utf8,
        valid_utf8_split,
        is_char_boundary_start_end_of_seq,
    };

    let bytes = encode_utf8(lexer.source);
    let tail = bytes.subrange(lexer.cursor as int, bytes.len() as int);
    assert(valid_utf8(tail));
    assert(encode_utf8(lexer.rest()) == tail);
    let next = lexer.cursor + length;
    if next < bytes.len() {
        is_char_boundary_iff_not_is_continuation_byte(tail, length);
        is_char_boundary_iff_not_is_continuation_byte(bytes, next);
        assert(tail[length] == bytes[next]);
    }
}

/// The rules of the language in the order in which they are tried: number
/// and string literals, the indentation unit, the pipe, blanks and comments,
/// the type names, colon and equal sign, and last the identifiers, so that
/// every more specific rule is asked before them.
pub open spec fn lexical_rules() -> Seq<Rule> {
    seq![
        Rule { pattern: r"^\d+"@, kind: TokenizerSpecType::Number },
        Rule { pattern: r"^'[^']*'"@, kind: TokenizerSpecType::String },
        Rule { pattern: r#"^"[^"]*""#@, kind: TokenizerSpecType::String },
        Rule { pattern: r"^`[^`]*`"@, kind: TokenizerSpecType::String },
        Rule { pattern: r"^(?:\t|(?:[ ]{4})){1}"@, kind: TokenizerSpecType::Tab },
        Rule { pattern: r"^\|"@, kind: TokenizerSpecType::Pipe },
        Rule { pattern: r"^\s+"@, kind: TokenizerSpecType::Skip },
        Rule { pattern: r"^\#.*"@, kind: TokenizerSpecType::Skip },
        Rule {
            pattern: r"^(?:Number|str|String|None|\(\)|Never|List|Array)"@,
            kind: TokenizerSpecType::SimpleType,
        },
        Rule { pattern: r"^:"@, kind: TokenizerSpecType::Colon },
        Rule { pattern: r"^="@, kind: TokenizerSpecType::Equal },
        Rule { pattern: r"^[^0-9]{1}\w*"@, kind: TokenizerSpecType::Variable },
    ]
}

/// A scan never moves the cursor back: the token starts at or behind the
/// cursor and ends at or behind its start, and a token that is found takes at
/// least one byte.
pub proof fn lemma_scan_moves_on(lexer: Lexer)
    ensures
        lexer.cursor <= scan(lexer).start <= scan(lexer).end,
        lexer.consumed().left() <= lexer.peeked().left() <= lexer.left(),
        scan(lexer).outcome matches Ok(Some(_)) ==> {
            &&& scan(lexer).start < scan(lexer).end
            &&& lexer.consumed().left() < lexer.peeked().left()
        },
    decreases lexer.left(),
{
    if lexer.cursor < lexer.len() {
        let rest = lexer.rest();
        lemma_first_claim(lexer.rules, rest, 0);
        if let Some(at) = first_claim(lexer.rules, rest, 0) {
            let rule = lexer.rules[at as int];
            let length = claim(rule, rest).unwrap();
            if rule.kind is Skip {
                lemma_scan_moves_on(lexer.at((lexer.cursor + length) as nat));
            }
        }
    }
}

/// The cursor never leaves the source: after a look and after a consumption
/// it lies within the source and between two characters, as it did before.
/// Where the scan finds the end of the input, the cursor stands there.
pub proof fn law_cursor_stays_in_source(lexer: Lexer)
    requires
        lexer.wf(),
    ensures
        scan(lexer).end <= lexer.len(),
        lexer.peeked().wf(),
        lexer.consumed().wf(),
        scan(lexer).outcome matches Ok(None) ==> scan(lexer).start == lexer.len(),
    decreases lexer.left(),
{
    if lexer.cursor < lexer.len() {
        let rest = lexer.rest();
        lemma_first_claim(lexer.rules, rest, 0);
        if let Some(at) = first_claim(lexer.rules, rest, 0) {
            let rule = lexer.rules[at as int];
            let length = claim(rule, rest).unwrap();
            lemma_advance(lexer, length as int);
            if rule.kind is Skip {
                law_cursor_stays_in_source(lexer.at((lexer.cursor + length) as nat));
            }
        }
    }
}

/// Where a look has left the cursor, the next scan starts and finds what the
/// look found.
pub proof fn lemma_peek_is_stable(lexer: Lexer)
    ensures
        scan(lexer.peeked()) == scan(lexer),
    decreases lexer.left(),
{
    if lexer.cursor < lexer.len() {
        let rest = lexer.rest();
        lemma_first_claim(lexer.rules, rest, 0);
        if let Some(at) = first_claim(lexer.rules, rest, 0) {
            let rule = lexer.rules[at as int];
            let length = claim(rule, rest).unwrap();
            if rule.kind is Skip {
                let next = lexer.at((lexer.cursor + length) as nat);
                lemma_peek_is_stable(next);
                assert(next.peeked() == lexer.peeked());
            } else {
                assert(lexer.peeked() == lexer);
            }
        } else {
            assert(lexer.peeked() == lexer);
        }
    } else {
        assert(lexer.peeked() == lexer);
    }
}

/// Looking at the next token twice in a row gives the same token, or the same
/// error, both times, and the second look does not move the cursor. The first
/// look does not move it either unless blanks or comments stand before the
/// token.
pub proof fn law_peek_twice(lexer: Lexer)
    ensures
        scan(lexer.peeked()).outcome == scan(lexer).outcome,
        lexer.peeked().peeked() == lexer.peeked(),
        scan(lexer).start == lexer.cursor ==> lexer.peeked() == lexer,
{
    lemma_peek_is_stable(lexer);
}

/// Consuming a token after a look at it consumes what the look found and
/// leaves the cursor where consuming at once would have left it.
pub proof fn law_consume_after_peek(lexer: Lexer)
    ensures
        scan(lexer.peeked()).outcome == scan(lexer).outcome,
        lexer.peeked().consumed() == lexer.consumed(),
{
    lemma_peek_is_stable(lexer);
}

/// A run of digits that denotes a number within the range of a 64-bit signed
/// integer is read as the number literal of exactly that value.
pub proof fn law_number_in_range(text: Seq<char>)
    requires
        is_digit_run(text),
        digits_value(text) <= i64::MAX,
    ensures
        token_of(TokenizerSpecType::Number, text) == Ok::<Option<TokenView>, LexErrorView>(
            Some(TokenView::Number(digits_value(text) as i64)),
        ),
{
}

/// A run of digits that denotes more than the largest 64-bit signed integer
/// is reported as too large, with the digits as they stand.
pub proof fn law_number_out_of_range(text: Seq<char>)
    requires
        is_digit_run(text),
        digits_value(text) > i64::MAX,
    ensures
        token_of(TokenizerSpecType::Number, text) == Err::<Option<TokenView>, LexErrorView>(
            LexErrorView::NumberTooLarge { text },
        ),
{
}

/// A run of digits that is one digit longer than the largest 64-bit signed
/// integer, or longer still, and does not start with a zero is reported as
/// too large.
pub proof fn law_number_too_long(text: Seq<char>)
    requires
        is_digit_run(text),
        text.len() >= 20,
        text[0] != '0',
    ensures
        token_of(TokenizerSpecType::Number, text) == Err::<Option<TokenView>, LexErrorView>(
            LexErrorView::NumberTooLarge { text },
        ),
{
    lemma_twenty_digits_overflow(text);
}

/// A text between two delimiters is read as the string literal of that text,
/// whatever the delimiter and whatever the text.
pub proof fn law_string_between_delimiters(delimiter: char, text: Seq<char>)
    ensures
        fits(TokenizerSpecType::String, seq![delimiter] + text + seq![delimiter]),
        token_of(TokenizerSpecType::String, seq![delimiter] + text + seq![delimiter]) == Ok::<
            Option<TokenView>,
            LexErrorView,
        >(Some(TokenView::String(text))),
{
    let lexeme = seq![delimiter] + text + seq![delimiter];
    assert(lexeme.subrange(1, lexeme.len() - 1) =~= text);
}

/// The token that follows a consumed token starts at or behind the end of
/// the consumed one: the spans of successive tokens do not overlap, and they
/// lie in the order in which the tokens are read.
pub proof fn law_spans_in_order(lexer: Lexer)
    ensures
        scan(lexer).start <= scan(lexer).end <= scan(lexer.consumed()).start,
{
    lemma_scan_moves_on(lexer);
    lemma_scan_moves_on(lexer.consumed());
}

/// The tokenizer: the rules in the order in which they are tried, the source
/// text, and the cursor, a byte offset into the source.
pub struct Tokenizer<'a> {
    cursor: usize,
    string: &'a str,
    specs: Vec<TokenizerSpec>,
}

impl<'a> View for Tokenizer<'a> {
    type V = Lexer;

    closed spec fn view(&self) -> Lexer {
        Lexer {
            rules: self.specs@.map_values(|spec: TokenizerSpec| spec@),
            source: self.string@,
            cursor: self.cursor as nat,
        }
    }
}

impl<'a> Tokenizer<'a> {
    /// A tokenizer for `string` with the rules of the language and the
    /// cursor at the start.
    pub fn new(string: &'a str) -> (tokenizer: Self)
        ensures
            tokenizer@ == (Lexer { rules: lexical_rules(), source: string@, cursor: 0 }),
            tokenizer@.wf(),
    {
        let specs = vec![
            TokenizerSpec::new(r"^\d+", TokenizerSpecType::Number),
            TokenizerSpec::new(r"^'[^']*'", TokenizerSpecType::String),
            TokenizerSpec::new(r#"^"[^"]*""#, TokenizerSpecType::String),
            TokenizerSpec::new(r"^`[^`]*`", TokenizerSpecType::String),
            TokenizerSpec::new(r"^(?:\t|(?:[ ]{4})){1}", TokenizerSpecType::Tab),
            TokenizerSpec::new(r"^\|", TokenizerSpecType::Pipe),
            TokenizerSpec::new(r"^\s+", TokenizerSpecType::Skip),
            TokenizerSpec::new(r"^\#.*", TokenizerSpecType::Skip),
            TokenizerSpec::new(
                r"^(?:Number|str|String|None|\(\)|Never|List|Array)",
                TokenizerSpecType::SimpleType,
            ),
            TokenizerSpec::new(r"^:", TokenizerSpecType::Colon),
            TokenizerSpec::new(r"^=", TokenizerSpecType::Equal),
            TokenizerSpec::new(r"^[^0-9]{1}\w*", TokenizerSpecType::Variable),
        ];
        let tokenizer = Tokenizer::with_specs(string, specs);
        assert(tokenizer@.rules =~= lexical_rules());
        tokenizer
    }

    /// A tokenizer for `string` with the rules `specs`, which are tried in
    /// their order, and the cursor at the start.
    pub fn with_specs(string: &'a str, specs: Vec<TokenizerSpec>) -> (tokenizer: Self)
        ensures
            tokenizer@ == (Lexer {
                rules: specs@.map_values(|spec: TokenizerSpec| spec@),
                source: string@,
                cursor: 0,
            }),
            tokenizer@.wf(),
    {
        let bytes = string.as_bytes();
        let tokenizer = Tokenizer { string, cursor: 0, specs };
        proof {
            broadcast use encode_utf8_valid_utf8;

            assert(tokenizer@.len() == bytes@.len() == bytes.len());
        }
        tokenizer
    }

    /// The cursor: the byte offset into the source at which the next scan
    /// starts.
    pub fn cursor(&self) -> (cursor: usize)
        ensures
            cursor == self@.cursor,
    {
        self.cursor
    }

    /// Whether the cursor stands before the end of the source.
    fn has_more_tokens(&self) -> (more: bool)
        ensures
            more == (self@.cursor < self@.len()),
    {
        self.cursor < self.string.as_bytes().len()
    }

    /// The first rule that claims a prefix of `rest`, by its kind and the
    /// length of its claim in bytes.
    fn first_rule(&self, rest: &str) -> (found: Option<(TokenizerSpecType, usize)>)
        ensures
            match first_claim(self@.rules, rest@, 0) {
                Some(at) => found == Some(
                    (self@.rules[at as int].kind, claim(self@.rules[at as int], rest@).unwrap()),
                ),
                None => found is None,
            },
    {
        let mut i: usize = 0;
        while i < self.specs.len()
            invariant
                0 <= i <= self.specs.len(),
                self.specs.len() == self@.rules.len(),
                first_claim(self@.rules, rest@, 0) == first_claim(self@.rules, rest@, i as nat),
            decreases self.specs.len() - i,
        {
            let kind = self.specs[i].kind;
            assert(self@.rules[i as int] == self.specs[i as int]@);
            let found = find_match(self.specs[i].pattern, rest);
            match claimed(kind, rest, found) {
                Some(length) => {
                    return Some((kind, length));
                },
                None => {},
            }
            i = i + 1;
        }
        None
    }

    /// Reads the next token. With `consume` the cursor moves behind the
    /// token; without it the cursor only moves over the blanks and comments
    /// before the token. At the end of the input there is no token.
    pub fn get_next_token(&mut self, consume: bool) -> (outcome: Result<Option<Token>, LexError>)
        requires
            old(self)@.wf(),
        ensures
            final(self)@.wf(),
            final(self)@ == (if consume {
                old(self)@.consumed()
            } else {
                old(self)@.peeked()
            }),
            old(self)@.cursor <= final(self)@.cursor,
            outcome_view(outcome) == scan(old(self)@).outcome,
        decreases old(self)@.left(),
    {
        proof {
            lemma_scan_moves_on(self@);
        }
        if !self.has_more_tokens() {
            return Ok(None);
        }
        let source: &'a str = self.string;
        let (_, rest) = source.split_at(self.cursor);
        proof {
            lemma_text_of_bytes(rest);
        }
        match self.first_rule(rest) {
            None => {
                let symbol = rest.get_char(0);
                Err(LexError::UnexpectedSymbol { symbol, index: self.cursor })
            },
            Some((kind, length)) => {
                proof {
                    lemma_first_claim(self@.rules, rest@, 0);
                    lemma_advance(self@, length as int);
                }
                match kind {
                    TokenizerSpecType::Skip => {
                        self.cursor = self.cursor + length;
                        self.get_next_token(consume)
                    },
                    _ => {
                        let (text, _) = rest.split_at(length);
                        proof {
                            lemma_text_of_bytes(text);
                        }
                        let outcome = make_token(kind, text);
                        if consume {
                            self.cursor = self.cursor + length;
                        }
                        outcome
                    },
                }
            },
        }
    }
}

} // verus!
