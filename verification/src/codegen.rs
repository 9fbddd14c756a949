//! Code generation: the source text of a node in one of two target languages.

use crate::decimal::{append_int, int_text, int_to_string};
use crate::parser::{Declaration, DeclarationView, Literal, LiteralView};
use vstd::prelude::*;
use vstd::string::*;

verus! {

/// The languages that code is generated for.
#[derive(Debug, Clone, Copy, PartialEq, Eq)]
pub enum Target {
    Python,
    Javascript,
}

/// A node that can be written in a target language.
pub trait Compilable {
    /// The source text of the node in `target`; nothing where the node has
    /// no form there.
    spec fn compiled(&self, target: Target) -> Option<Seq<char>>;

    /// Writes the node in `target`.
    fn compile(&self, target: Target) -> (text: Option<String>)
        ensures
            text_view(text) == self.compiled(target),
    ;
}

/// The characters of a generated text.
pub open spec fn text_view(text: Option<String>) -> Option<Seq<char>> {
    match text {
        Some(text) => Some(text@),
        None => None,
    }
}

/// A literal on its own: a string is its bare text, a number its decimal
/// numeral, whatever the target.
pub open spec fn literal_text(literal: LiteralView) -> Seq<char> {
    match literal {
        LiteralView::StringLiteral(value) => value,
        LiteralView::NumberLiteral(value) => int_text(value as int),
    }
}

/// A literal as an initializer: a string stands between double quotes in
/// Python and between backticks in Javascript, a number is its decimal
/// numeral.
pub open spec fn initializer_text(literal: LiteralView, target: Target) -> Seq<char> {
    match literal {
        LiteralView::StringLiteral(value) => match target {
            Target::Python => "\""@ + value + "\""@,
            Target::Javascript => "`"@ + value + "`"@,
        },
        LiteralView::NumberLiteral(value) => int_text(value as int),
    }
}

/// A declaration: an assignment in Python, a `let` statement in Javascript.
/// The annotation has no part in either.
pub open spec fn declaration_text(declaration: DeclarationView, target: Target) -> Seq<char> {
    match target {
        Target::Python => declaration.name + " = "@ + initializer_text(
            declaration.literal,
            target,
        ),
        Target::Javascript => "let "@ + declaration.name + " = "@ + initializer_text(
            declaration.literal,
            target,
        ) + ";"@,
    }
}

impl Compilable for Literal {
    open spec fn compiled(&self, target: Target) -> Option<Seq<char>> {
        Some(literal_text(self@))
    }

    fn compile(&self, target: Target) -> (text: Option<String>) {
        match self {
            Literal::StringLiteral(value) => Some(value.clone()),
            Literal::NumberLiteral(value) => Some(int_to_string(*value)),
        }
    }
}

/// Appends `literal` to `out` as an initializer in `target`.
fn append_initializer(out: &mut String, literal: &Literal, target: Target)
    ensures
        final(out)@ == old(out)@ + initializer_text(literal@, target),
{
    match literal {
        Literal::StringLiteral(value) => {
            let quote = match target {
                Target::Python => "\"",
                Target::Javascript => "`",
            };
            out.append(quote);
            out.append(value.as_str());
            out.append(quote);
            assert(out@ =~= old(out)@ + initializer_text(literal@, target));
        },
        Literal::NumberLiteral(value) => {
            append_int(out, *value);
        },
    }
}

impl Compilable for Declaration {
    open spec fn compiled(&self, target: Target) -> Option<Seq<char>> {
        Some(declaration_text(self@, target))
    }

    fn compile(&self, target: Target) -> (text: Option<String>) {
        match target {
            Target::Python => {
                let mut text = self.variable.name.clone();
                text.append(" = ");
                append_initializer(&mut text, &self.literal, target);
                assert(text@ =~= declaration_text(self@, target));
                Some(text)
            },
            Target::Javascript => {
                let mut text = String::from_str("let ");
                text.append(self.variable.name.as_str());
                text.append(" = ");
                append_initializer(&mut text, &self.literal, target);
                text.append(";");
                assert(text@ =~= declaration_text(self@, target));
                Some(text)
            },
        }
    }
}

/// Writes `node` in `target`.
pub fn compile(node: &dyn Compilable, target: Target) -> (text: Option<String>)
    ensures
        text_view(text) == node.compiled(target),
{
    node.compile(target)
}

} // verus!
