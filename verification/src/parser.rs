//! The recursive-descent parser: literals, simple and union types,
//! indentation, variables and declarations, read from a borrowed tokenizer.

use crate::text::text_eq;
use crate::token::{Token, TokenView};
use crate::tokenizer::{lemma_peek_is_stable, lemma_scan_moves_on, scan, Lexer, Tokenizer};
use vstd::prelude::*;
use vstd::string::*;

verus! {

/// A literal value.
#[derive(Debug)]
pub enum Literal {
    StringLiteral(String),
    NumberLiteral(i64),
}

/// The mathematical value of a [`Literal`].
pub ghost enum LiteralView {
    StringLiteral(Seq<char>),
    NumberLiteral(i64),
}

impl View for Literal {
    type V = LiteralView;

    open spec fn view(&self) -> LiteralView {
        match self {
            Literal::StringLiteral(value) => LiteralView::StringLiteral(value@),
            Literal::NumberLiteral(value) => LiteralView::NumberLiteral(*value),
        }
    }
}

/// The simple types of the language.
#[derive(Debug, Clone, Copy, PartialEq, Eq, Structural)]
pub enum SimpleType {
    Number,
    Str,
    String,
    NoneType,
    Empty,
    Never,
    List,
}

impl View for SimpleType {
    type V = SimpleType;

    open spec fn view(&self) -> SimpleType {
        *self
    }
}

/// The simple type that is written `name`, if there is one.
pub open spec fn simple_type_named(name: Seq<char>) -> Option<SimpleType> {
    if name == "Number"@ {
        Some(SimpleType::Number)
    } else if name == "str"@ {
        Some(SimpleType::Str)
    } else if name == "String"@ {
        Some(SimpleType::String)
    } else if name == "None"@ {
        Some(SimpleType::NoneType)
    } else if name == "()"@ {
        Some(SimpleType::Empty)
    } else if name == "Never"@ {
        Some(SimpleType::Never)
    } else if name == "List"@ {
        Some(SimpleType::List)
    } else {
        None
    }
}

/// The message for a type name that names no simple type.
pub open spec fn invalid_type(name: Seq<char>) -> Seq<char> {
    "The type "@ + name + " is not valid"@
}

impl SimpleType {
    /// The simple type that is written `value`, or the message that says
    /// that there is none.
    pub fn try_from(value: String) -> (simple_type: Result<SimpleType, String>)
        ensures
            result_view(simple_type) == match simple_type_named(value@) {
                Some(named) => Ok::<SimpleType, Seq<char>>(named),
                None => Err(invalid_type(value@)),
            },
    {
        let name = value.as_str();
        if text_eq(name, "Number") {
            Ok(SimpleType::Number)
        } else if text_eq(name, "str") {
            Ok(SimpleType::Str)
        } else if text_eq(name, "String") {
            Ok(SimpleType::String)
        } else if text_eq(name, "None") {
            Ok(SimpleType::NoneType)
        } else if text_eq(name, "()") {
            Ok(SimpleType::Empty)
        } else if text_eq(name, "Never") {
            Ok(SimpleType::Never)
        } else if text_eq(name, "List") {
            Ok(SimpleType::List)
        } else {
            let mut message = String::from_str("The type ");
            message.append(name);
            message.append(" is not valid");
            Err(message)
        }
    }
}

/// The mathematical value of what a rule of the parser returns: the node by
/// its view, the message by its characters.
pub open spec fn result_view<T: View>(result: Result<T, String>) -> Result<T::V, Seq<char>> {
    match result {
        Ok(node) => Ok(node@),
        Err(message) => Err(message@),
    }
}

/// A union type: the simple types of an annotation in the order in which
/// they are written. A type may occur more than once.
#[derive(Debug)]
pub struct UnionType {
    pub types: Vec<SimpleType>,
}

impl View for UnionType {
    type V = Seq<SimpleType>;

    open spec fn view(&self) -> Seq<SimpleType> {
        self.types@
    }
}

impl UnionType {
    /// A union type names at least one simple type.
    pub open spec fn wf(&self) -> bool {
        self.types@.len() >= 1
    }

    /// Whether `simple_type` is among the types of the union.
    pub fn has_type(&self, simple_type: SimpleType) -> (found: bool)
        ensures
            found == self@.contains(simple_type),
    {
        let mut i: usize = 0;
        while i < self.types.len()
            invariant
                0 <= i <= self.types.len(),
                forall|j: int| 0 <= j < i ==> self.types@[j] != simple_type,
            decreases self.types.len() - i,
        {
            if self.types[i] == simple_type {
                return true;
            }
            i = i + 1;
        }
        false
    }
}

/// A run of indentation units.
pub struct Identation {
    /// How many units the run holds; at least one.
    pub count: usize,
}

impl View for Identation {
    type V = nat;

    open spec fn view(&self) -> nat {
        self.count as nat
    }
}

/// The name of a variable.
pub struct Variable {
    pub name: String,
}

impl View for Variable {
    type V = Seq<char>;

    open spec fn view(&self) -> Seq<char> {
        self.name@
    }
}

/// A declaration: a variable, the union type of its annotation where it has
/// one, and the literal that initializes it.
pub struct Declaration {
    pub variable: Variable,
    pub union_type: Option<UnionType>,
    pub literal: Literal,
}

/// The mathematical value of a [`Declaration`].
pub ghost struct DeclarationView {
    pub name: Seq<char>,
    pub union_type: Option<Seq<SimpleType>>,
    pub literal: LiteralView,
}

impl View for Declaration {
    type V = DeclarationView;

    open spec fn view(&self) -> DeclarationView {
        DeclarationView {
            name: self.variable@,
            union_type: match self.union_type {
                Some(union_type) => Some(union_type@),
                None => None,
            },
            literal: self.literal@,
        }
    }
}

/// What a rule makes of a lexer: the node or the message, and the lexer as
/// the rule leaves it.
pub ghost struct Parsed<T> {
    pub result: Result<T, Seq<char>>,
    pub lexer: Lexer,
}

/// The message of a rule that expected `what` and found `found`.
pub open spec fn expected(what: Seq<char>, found: Seq<char>) -> Seq<char> {
    "Expected "@ + what + " (got "@ + found + ")"@
}

/// How a message names what a scan found: the token, or the end of the input.
pub open spec fn found_text(found: Option<TokenView>) -> Seq<char> {
    match found {
        Some(token) => token.text(),
        None => TokenView::EOF.text(),
    }
}

/// The rule `Literal`: one token is consumed, which is a string or a number.
pub open spec fn literal_rule(lexer: Lexer) -> Parsed<LiteralView> {
    Parsed {
        result: match scan(lexer).outcome {
            Ok(Some(TokenView::String(value))) => Ok(LiteralView::StringLiteral(value)),
            Ok(Some(TokenView::Number(value))) => Ok(LiteralView::NumberLiteral(value)),
            Ok(found) => Err(expected("valid literal value"@, found_text(found))),
            Err(error) => Err(error.text()),
        },
        lexer: lexer.consumed(),
    }
}

/// The rule `SimpleType`: one token is consumed, which is a type name that
/// names a simple type.
pub open spec fn simple_type_rule(lexer: Lexer) -> Parsed<SimpleType> {
    Parsed {
        result: match scan(lexer).outcome {
            Ok(Some(TokenView::SimpleType(name))) => match simple_type_named(name) {
                Some(simple_type) => Ok(simple_type),
                None => Err(invalid_type(name)),
            },
            Ok(found) => Err(expected("valid simple type"@, found_text(found))),
            Err(error) => Err(error.text()),
        },
        lexer: lexer.consumed(),
    }
}

/// The rule `Pipe`: one token is consumed, which is a pipe.
pub open spec fn pipe_rule(lexer: Lexer) -> Parsed<()> {
    Parsed {
        result: match scan(lexer).outcome {
            Ok(Some(TokenView::Pipe)) => Ok(()),
            Ok(found) => Err(expected("pipe"@, found_text(found))),
            Err(error) => Err(error.text()),
        },
        lexer: lexer.consumed(),
    }
}

/// The rule `Variable`: one token is consumed, which is an identifier.
pub open spec fn variable_rule(lexer: Lexer) -> Parsed<Seq<char>> {
    Parsed {
        result: match scan(lexer).outcome {
            Ok(Some(TokenView::Variable(name))) => Ok(name),
            Ok(found) => Err(expected("variable"@, found_text(found))),
            Err(error) => Err(error.text()),
        },
        lexer: lexer.consumed(),
    }
}

/// The rule `UnionType`: a simple type, and where a pipe follows it, the
/// pipe and a union type, whose types come behind the first in their order.
/// Where anything but a pipe follows, error or not, the union ends and what
/// follows is left in place.
pub open spec fn union_type_rule(lexer: Lexer) -> Parsed<Seq<SimpleType>>
    decreases lexer.left(),
{
    let first = simple_type_rule(lexer);
    match first.result {
        Ok(simple_type) => {
            if scan(first.lexer).outcome matches Ok(Some(TokenView::Pipe)) {
                proof {
                    lemma_scan_moves_on(lexer);
                    lemma_scan_moves_on(first.lexer);
                }
                let more = union_type_rule(first.lexer.consumed());
                Parsed {
                    result: match more.result {
                        Ok(types) => Ok(seq![simple_type] + types),
                        Err(error) => Err(error),
                    },
                    lexer: more.lexer,
                }
            } else {
                Parsed { result: Ok(seq![simple_type]), lexer: first.lexer.peeked() }
            }
        },
        Err(error) => Parsed { result: Err(error), lexer: first.lexer },
    }
}

/// The rule `Identation`: one tab is consumed, and every tab that follows
/// it at once; the result is their number. Where anything but a tab follows,
/// error or not, the run ends and what follows is left in place.
pub open spec fn identation_rule(lexer: Lexer) -> Parsed<nat>
    decreases lexer.left(),
{
    match scan(lexer).outcome {
        Ok(Some(TokenView::Tab)) => {
            if scan(lexer.consumed()).outcome matches Ok(Some(TokenView::Tab)) {
                proof {
                    lemma_scan_moves_on(lexer);
                    lemma_scan_moves_on(lexer.consumed());
                }
                let more = identation_rule(lexer.consumed().peeked());
                Parsed {
                    result: match more.result {
                        Ok(count) => Ok(1 + count),
                        Err(error) => Err(error),
                    },
                    lexer: more.lexer,
                }
            } else {
                Parsed { result: Ok(1), lexer: lexer.consumed().peeked() }
            }
        },
        Ok(found) => Parsed {
            result: Err(expected("identation"@, found_text(found))),
            lexer: lexer.consumed(),
        },
        Err(error) => Parsed { result: Err(error.text()), lexer: lexer.consumed() },
    }
}

/// The rest of a declaration behind the name and the annotation: an equal
/// sign and a literal.
pub open spec fn initializer_rule(
    lexer: Lexer,
    name: Seq<char>,
    union_type: Seq<SimpleType>,
) -> Parsed<DeclarationView> {
    match scan(lexer).outcome {
        Ok(Some(TokenView::Equal)) => {
            let literal = literal_rule(lexer.consumed());
            Parsed {
                result: match literal.result {
                    Ok(literal) => Ok(
                        DeclarationView { name, union_type: Some(union_type), literal },
                    ),
                    Err(error) => Err(error),
                },
                lexer: literal.lexer,
            }
        },
        Ok(found) => Parsed {
            result: Err(expected(TokenView::Equal.text(), found_text(found))),
            lexer: lexer.consumed(),
        },
        Err(error) => Parsed { result: Err(error.text()), lexer: lexer.consumed() },
    }
}

/// The rule `Declaration`: a variable, then either a colon, a union type,
/// an equal sign and a literal, or an equal sign and a literal at once.
/// Where neither a colon nor an equal sign follows the variable, what follows
/// is left in place.
pub open spec fn declaration_rule(lexer: Lexer) -> Parsed<DeclarationView> {
    let variable = variable_rule(lexer);
    match variable.result {
        Ok(name) => match scan(variable.lexer).outcome {
            Ok(Some(TokenView::Colon)) => {
                let union_type = union_type_rule(variable.lexer.consumed());
                match union_type.result {
                    Ok(types) => initializer_rule(union_type.lexer, name, types),
                    Err(error) => Parsed { result: Err(error), lexer: union_type.lexer },
                }
            },
            Ok(Some(TokenView::Equal)) => {
                let literal = literal_rule(variable.lexer.consumed());
                Parsed {
                    result: match literal.result {
                        Ok(literal) => Ok(DeclarationView { name, union_type: None, literal }),
                        Err(error) => Err(error),
                    },
                    lexer: literal.lexer,
                }
            },
            Ok(found) => Parsed {
                result: Err(
                    expected(
                        TokenView::Colon.text() + " or "@ + TokenView::Equal.text(),
                        found_text(found),
                    ),
                ),
                lexer: variable.lexer.peeked(),
            },
            Err(error) => Parsed { result: Err(error.text()), lexer: variable.lexer.peeked() },
        },
        Err(error) => Parsed { result: Err(error), lexer: variable.lexer },
    }
}

/// How many tabs stand at the cursor one after another.
pub open spec fn leading_tabs(lexer: Lexer) -> nat
    decreases lexer.left(),
{
    if scan(lexer).outcome matches Ok(Some(TokenView::Tab)) {
        proof {
            lemma_scan_moves_on(lexer);
        }
        1 + leading_tabs(lexer.consumed())
    } else {
        0
    }
}

/// Whether a tab is the next token.
pub open spec fn tab_is_next(lexer: Lexer) -> bool {
    scan(lexer).outcome matches Ok(Some(TokenView::Tab))
}

/// One step of [`leading_tabs`].
proof fn lemma_leading_tabs_step(lexer: Lexer)
    ensures
        tab_is_next(lexer) ==> leading_tabs(lexer) == 1 + leading_tabs(lexer.consumed()),
        !tab_is_next(lexer) ==> leading_tabs(lexer) == 0,
{
}

/// A look at the next token does not change how many tabs follow.
proof fn lemma_leading_tabs_after_peek(lexer: Lexer)
    ensures
        tab_is_next(lexer.peeked()) == tab_is_next(lexer),
        leading_tabs(lexer.peeked()) == leading_tabs(lexer),
{
    lemma_peek_is_stable(lexer);
    assert(scan(lexer.peeked()) == scan(lexer));
    assert(lexer.peeked().consumed() == lexer.consumed());
    lemma_leading_tabs_step(lexer);
    lemma_leading_tabs_step(lexer.peeked());
}

/// One step of the rule `Identation`.
proof fn lemma_identation_step(lexer: Lexer)
    ensures
        !tab_is_next(lexer) ==> identation_rule(lexer).result is Err,
        tab_is_next(lexer) && !tab_is_next(lexer.consumed()) ==> identation_rule(lexer).result
            == Ok::<nat, Seq<char>>(1),
        tab_is_next(lexer) && tab_is_next(lexer.consumed()) ==> identation_rule(lexer).result
            == match identation_rule(lexer.consumed().peeked()).result {
            Ok(count) => Ok::<nat, Seq<char>>(1 + count),
            Err(error) => Err(error),
        },
{
}

/// The rule `Identation` succeeds exactly where a tab stands at the cursor,
/// and then it counts the tabs that stand there one after another, which are
/// at least one and no more than the bytes that are left.
pub proof fn law_identation_counts_tabs(lexer: Lexer)
    ensures
        match identation_rule(lexer).result {
            Ok(count) => {
                &&& scan(lexer).outcome matches Ok(Some(TokenView::Tab))
                &&& count == leading_tabs(lexer)
                &&& 1 <= count <= lexer.left()
            },
            Err(_) => !(scan(lexer).outcome matches Ok(Some(TokenView::Tab))),
        },
    decreases lexer.left(),
{
    lemma_identation_step(lexer);
    lemma_leading_tabs_step(lexer);
    if tab_is_next(lexer) {
        let next = lexer.consumed();
        lemma_scan_moves_on(lexer);
        assert(next.left() < lexer.left());
        lemma_leading_tabs_step(next);
        if tab_is_next(next) {
            let looked = next.peeked();
            lemma_scan_moves_on(next);
            assert(looked.left() <= next.left());
            lemma_leading_tabs_after_peek(next);
            assert(tab_is_next(looked));
            assert(leading_tabs(looked) == leading_tabs(next));
            law_identation_counts_tabs(looked);
            let count = identation_rule(looked).result->Ok_0;
            assert(identation_rule(looked).result is Ok);
            assert(count == leading_tabs(next));
            assert(count <= looked.left());
            assert(identation_rule(lexer).result == Ok::<nat, Seq<char>>(1 + count));
            assert(leading_tabs(lexer) == 1 + count);
        } else {
            assert(identation_rule(lexer).result == Ok::<nat, Seq<char>>(1));
            assert(leading_tabs(lexer) == 1);
            assert(lexer.left() >= 1);
        }
    } else {
        assert(identation_rule(lexer).result is Err);
    }
}

/// A union type that the rule `UnionType` yields is not empty, and its
/// first type is the simple type that stands at the cursor.
pub proof fn law_union_type_starts_with_first(lexer: Lexer)
    ensures
        union_type_rule(lexer).result matches Ok(types) ==> {
            &&& types.len() >= 1
            &&& simple_type_rule(lexer).result == Ok::<SimpleType, Seq<char>>(types[0])
        },
{
}

/// The rule `UnionType` fails exactly where no simple type stands at the
/// cursor, or where a pipe follows the simple type and no union type follows
/// the pipe.
pub proof fn law_union_type_fails(lexer: Lexer)
    ensures
        union_type_rule(lexer).result is Err <==> {
            ||| simple_type_rule(lexer).result is Err
            ||| {
                &&& scan(simple_type_rule(lexer).lexer).outcome matches Ok(Some(TokenView::Pipe))
                &&& union_type_rule(simple_type_rule(lexer).lexer.consumed()).result is Err
            }
        },
{
}

/// Builds the message of a rule that expected `what` and found `found`.
fn expected_message(what: &str, found: &str) -> (message: String)
    ensures
        message@ == expected(what@, found@),
{
    let mut message = String::from_str("Expected ");
    message.append(what);
    message.append(" (got ");
    message.append(found);
    message.append(")");
    message
}

/// Builds the message of a rule that expected `what` and was handed `found`
/// by the tokenizer.
fn unexpected(what: &str, found: Option<Token>) -> (message: String)
    ensures
        message@ == expected(
            what@,
            found_text(
                match found {
                    Some(token) => Some(token@),
                    None => None,
                },
            ),
        ),
{
    let found = match found {
        Some(token) => token.to_string(),
        None => Token::EOF.to_string(),
    };
    expected_message(what, found.as_str())
}

/// The words for what may follow the variable of a declaration.
fn colon_or_equal() -> (words: String)
    ensures
        words@ == TokenView::Colon.text() + " or "@ + TokenView::Equal.text(),
{
    let mut words = Token::Colon.to_string();
    words.append(" or ");
    words.append(Token::Equal.to_string().as_str());
    words
}

/// The parser. It reads from a tokenizer that it borrows for as long as it
/// lives, and it keeps no state of its own.
pub struct Parser<'a> {
    tokenizer: &'a mut Tokenizer<'a>,
}

impl<'a> View for Parser<'a> {
    type V = Lexer;

    closed spec fn view(&self) -> Lexer {
        (*self.tokenizer)@
    }
}

impl<'a> Parser<'a> {
    /// A parser that reads from `tokenizer`.
    pub fn new(tokenizer: &'a mut Tokenizer<'a>) -> (parser: Self)
        ensures
            parser@ == old(tokenizer)@,
    {
        Self { tokenizer }
    }

    /// Parses a literal: a string or a number.
    pub fn parse_literal(&mut self) -> (literal: Result<Literal, String>)
        requires
            old(self)@.wf(),
        ensures
            final(self)@.wf(),
            final(self)@ == literal_rule(old(self)@).lexer,
            result_view(literal) == literal_rule(old(self)@).result,
    {
        match self.tokenizer.get_next_token(true) {
            Ok(Some(token)) => match token {
                Token::String(string) => Ok(Literal::StringLiteral(string)),
                Token::Number(number) => Ok(Literal::NumberLiteral(number)),
                _ => Err(unexpected("valid literal value", Some(token))),
            },
            Ok(None) => Err(unexpected("valid literal value", None)),
            Err(error) => Err(error.to_string()),
        }
    }

    /// Parses a simple type: a type name that names one.
    pub fn parse_simple_type(&mut self) -> (simple_type: Result<SimpleType, String>)
        requires
            old(self)@.wf(),
        ensures
            final(self)@.wf(),
            final(self)@ == simple_type_rule(old(self)@).lexer,
            result_view(simple_type) == simple_type_rule(old(self)@).result,
    {
        match self.tokenizer.get_next_token(true) {
            Ok(Some(token)) => match token {
                Token::SimpleType(value) => SimpleType::try_from(value),
                _ => Err(unexpected("valid simple type", Some(token))),
            },
            Ok(None) => Err(unexpected("valid simple type", None)),
            Err(error) => Err(error.to_string()),
        }
    }

    /// Parses a pipe, the separator of a union type.
    pub fn parse_pipe(&mut self) -> (pipe: Result<(), String>)
        requires
            old(self)@.wf(),
        ensures
            final(self)@.wf(),
            final(self)@ == pipe_rule(old(self)@).lexer,
            result_view(pipe) == pipe_rule(old(self)@).result,
    {
        match self.tokenizer.get_next_token(true) {
            Ok(Some(token)) => match token {
                Token::Pipe => Ok(()),
                _ => Err(unexpected("pipe", Some(token))),
            },
            Ok(None) => Err(unexpected("pipe", None)),
            Err(error) => Err(error.to_string()),
        }
    }

    /// Parses a union type: simple types with pipes between them.
    pub fn parse_union_type(&mut self) -> (union_type: Result<UnionType, String>)
        requires
            old(self)@.wf(),
        ensures
            final(self)@.wf(),
            final(self)@ == union_type_rule(old(self)@).lexer,
            result_view(union_type) == union_type_rule(old(self)@).result,
            union_type matches Ok(parsed) ==> parsed.wf(),
        decreases old(self)@.left(),
    {
        proof {
            lemma_scan_moves_on(self@);
        }
        match self.parse_simple_type() {
            Ok(simple_type) => {
                let mut types = vec![simple_type];
                proof {
                    lemma_scan_moves_on(self@);
                    lemma_peek_is_stable(self@);
                }
                if let Ok(Some(Token::Pipe)) = self.tokenizer.get_next_token(false) {
                    let _ = self.tokenizer.get_next_token(true);
                    return match self.parse_union_type() {
                        Ok(next) => {
                            let mut rest = next.types;
                            types.append(&mut rest);
                            assert(types@ =~= seq![simple_type] + next@);
                            Ok(UnionType { types })
                        },
                        Err(error) => Err(error),
                    };
                }
                assert(types@ =~= seq![simple_type]);
                Ok(UnionType { types })
            },
            Err(error) => Err(error),
        }
    }

    /// Parses a run of indentation units and counts them.
    pub fn parse_identation(&mut self) -> (identation: Result<Identation, String>)
        requires
            old(self)@.wf(),
        ensures
            final(self)@.wf(),
            final(self)@ == identation_rule(old(self)@).lexer,
            result_view(identation) == identation_rule(old(self)@).result,
            identation matches Ok(run) ==> 1 <= run.count <= old(self)@.left(),
        decreases old(self)@.left(),
    {
        proof {
            lemma_scan_moves_on(self@);
        }
        match self.tokenizer.get_next_token(true) {
            Ok(Some(token)) => match token {
                Token::Tab => {
                    proof {
                        lemma_scan_moves_on(self@);
                    }
                    if let Ok(Some(Token::Tab)) = self.tokenizer.get_next_token(false) {
                        return match self.parse_identation() {
                            Ok(result) => Ok(Identation { count: 1 + result.count }),
                            Err(error) => Err(error),
                        };
                    }
                    Ok(Identation { count: 1 })
                },
                _ => Err(unexpected("identation", Some(token))),
            },
            Ok(None) => Err(unexpected("identation", None)),
            Err(error) => Err(error.to_string()),
        }
    }

    /// Parses a variable: an identifier.
    pub fn parse_variable(&mut self) -> (variable: Result<Variable, String>)
        requires
            old(self)@.wf(),
        ensures
            final(self)@.wf(),
            final(self)@ == variable_rule(old(self)@).lexer,
            result_view(variable) == variable_rule(old(self)@).result,
    {
        match self.tokenizer.get_next_token(true) {
            Ok(Some(token)) => match token {
                Token::Variable(name) => Ok(Variable { name }),
                _ => Err(unexpected("variable", Some(token))),
            },
            Ok(None) => Err(unexpected("variable", None)),
            Err(error) => Err(error.to_string()),
        }
    }

    /// Parses a declaration: a variable, an optional annotation with a
    /// union type, and the literal that initializes the variable.
    pub fn parse_declaration(&mut self) -> (declaration: Result<Declaration, String>)
        requires
            old(self)@.wf(),
        ensures
            final(self)@.wf(),
            final(self)@ == declaration_rule(old(self)@).lexer,
            result_view(declaration) == declaration_rule(old(self)@).result,
            declaration matches Ok(parsed) ==> (parsed.union_type matches Some(union_type)
                ==> union_type.wf()),
    {
        match self.parse_variable() {
            Ok(variable) => {
                proof {
                    lemma_peek_is_stable(self@);
                }
                match self.tokenizer.get_next_token(false) {
                    Ok(Some(token)) => match token {
                        Token::Colon => {
                            let _ = self.tokenizer.get_next_token(true);
                            match self.parse_union_type() {
                                Ok(union_type) => match self.tokenizer.get_next_token(true) {
                                    Ok(Some(token)) => match token {
                                        Token::Equal => match self.parse_literal() {
                                            Ok(literal) => Ok(
                                                Declaration {
                                                    variable,
                                                    union_type: Some(union_type),
                                                    literal,
                                                },
                                            ),
                                            Err(error) => Err(error),
                                        },
                                        _ => Err(
                                            unexpected(
                                                Token::Equal.to_string().as_str(),
                                                Some(token),
                                            ),
                                        ),
                                    },
                                    Ok(None) => Err(
                                        unexpected(Token::Equal.to_string().as_str(), None),
                                    ),
                                    Err(error) => Err(error.to_string()),
                                },
                                Err(error) => Err(error),
                            }
                        },
                        Token::Equal => {
                            let _ = self.tokenizer.get_next_token(true);
                            match self.parse_literal() {
                                Ok(literal) => Ok(
                                    Declaration { variable, union_type: None, literal },
                                ),
                                Err(error) => Err(error),
                            }
                        },
                        _ => Err(unexpected(colon_or_equal().as_str(), Some(token))),
                    },
                    Ok(None) => Err(unexpected(colon_or_equal().as_str(), None)),
                    Err(error) => Err(error.to_string()),
                }
            },
            Err(error) => Err(error),
        }
    }
}

} // verus!
