//! Why an expansion was refused.

use proc_macro2::Ident;
use vstd::prelude::*;

verus! {

/// What the attribute's grammar wanted at the place where it gave up.
#[derive(Debug, Clone, Copy, PartialEq, Eq, Structural)]
pub enum Expected {
    /// The identifier that starts a list.
    Identifier,
    /// The `=` behind the identifier.
    Assignment,
    /// The braces behind the `=`.
    Braces,
    /// Expressions, separated by commas, between the braces.
    Expressions,
    /// The comma between two lists.
    Comma,
    /// A function definition under the attribute.
    Function,
}

/// The attribute or the function under it is not written as it has to be.
#[derive(Debug)]
pub struct SyntaxError {
    /// The place of the offending token among the top-level tokens of the
    /// input; the number of tokens where the input ended too early.
    pub at: usize,
    pub expected: Expected,
    /// What `syn` said, where it was `syn` that refused.
    pub cause: Option<syn::Error>,
}

/// One declared identifier with the length of its list.
#[derive(Debug)]
pub struct ListLength {
    pub name: String,
    pub length: usize,
}

/// Every way in which an expansion fails. A failed expansion generates
/// nothing.
#[derive(Debug)]
pub enum ExpansionError {
    /// The attribute's arguments or the function did not parse.
    Syntax(SyntaxError),
    /// The function's argument at `position` is a receiver, or is not a
    /// plain `name: Type`.
    MalformedParameter { position: usize },
    /// `id` is declared a second time.
    DuplicateIdentifier { id: Ident },
    /// The list of `id` has `found` values where the first list has
    /// `expected`; `lengths` names every declared identifier, sorted.
    UnequalLength { id: Ident, expected: usize, found: usize, lengths: Vec<ListLength> },
    /// `id` is declared but names no parameter of the function, or is a
    /// parameter for which nothing is declared.
    UnknownParameter { id: Ident },
    /// The case `case` gives `found` arguments to a function of `expected`
    /// parameters.
    ArityMismatch { case: Ident, expected: usize, found: usize },
    /// The counter that numbers the generated cases has no room for them.
    CaseIdsExhausted,
}

/// A place and what was wanted there: what a `SyntaxError` says, without
/// the words of `syn`.
pub struct SyntaxFault {
    pub at: int,
    pub expected: Expected,
}

impl SyntaxError {
    /// The words of `syn` are there where it was `syn` that refused:
    /// where the expressions of a list or the function did not parse.
    pub open spec fn has_its_cause(&self) -> bool {
        self.cause is Some <==> self.expected == Expected::Expressions || self.expected
            == Expected::Function
    }
}

impl View for SyntaxError {
    type V = SyntaxFault;

    open spec fn view(&self) -> SyntaxFault {
        SyntaxFault { at: self.at as int, expected: self.expected }
    }
}

impl View for ListLength {
    type V = (Seq<char>, nat);

    open spec fn view(&self) -> (Seq<char>, nat) {
        (self.name@, self.length as nat)
    }
}

} // verus!
