//! The boundary to the host's token and syntax-tree types.
//!
//! Tokens and syntax trees come from `proc_macro2` and `syn`. The expansion
//! never looks inside an expression, a type, a visibility, an attribute or a
//! block: it carries them from the attribute and the function into the
//! generated cases. What it does read -- the text of an identifier, the
//! top-level shape of a token stream, whether an attribute marks a test, the
//! kind of a function argument -- is read here, once, by a call into the
//! outside crate whose contract is stated and not proved.

use crate::text::{is_digit, is_letter};
use proc_macro2::{Delimiter, Ident, Span, TokenStream, TokenTree};
use syn::parse::Parser;
use syn::punctuated::Punctuated;
use syn::{Attribute, Block, Expr, FnArg, ItemFn, Pat, PatIdent, PatType, Type, Visibility};
use vstd::prelude::*;

verus! {

// The types of `proc_macro2` and `syn` that the library holds. It sees the
// variants of `Delimiter`, and nothing inside the others.

#[verifier::external_type_specification]
#[verifier::external_body]
pub struct ExTokenStream(TokenStream);

#[verifier::external_type_specification]
#[verifier::external_body]
pub struct ExIdent(Ident);

#[verifier::external_type_specification]
pub struct ExDelimiter(Delimiter);

#[verifier::external_type_specification]
#[verifier::external_body]
pub struct ExExpr(Expr);

#[verifier::external_type_specification]
#[verifier::external_body]
pub struct ExType(Type);

#[verifier::external_type_specification]
#[verifier::external_body]
pub struct ExVisibility(Visibility);

#[verifier::external_type_specification]
#[verifier::external_body]
pub struct ExAttribute(Attribute);

#[verifier::external_type_specification]
#[verifier::external_body]
pub struct ExBlock(Block);

#[verifier::external_type_specification]
#[verifier::external_body]
pub struct ExSyntaxError(syn::Error);

/// `Ident::clone` gives an identifier with the same text and span.
pub assume_specification[ <Ident as Clone>::clone ](ident: &Ident) -> (copy: Ident)
    ensures
        copy == *ident,
;

/// `Expr::clone` gives the same expression.
pub assume_specification[ <Expr as Clone>::clone ](expr: &Expr) -> (copy: Expr)
    ensures
        copy == *expr,
;

/// `Type::clone` gives the same type.
pub assume_specification[ <Type as Clone>::clone ](ty: &Type) -> (copy: Type)
    ensures
        copy == *ty,
;

/// `Visibility::clone` gives the same visibility.
pub assume_specification[ <Visibility as Clone>::clone ](vis: &Visibility) -> (copy: Visibility)
    ensures
        copy == *vis,
;

/// `Attribute::clone` gives the same attribute.
pub assume_specification[ <Attribute as Clone>::clone ](attr: &Attribute) -> (copy: Attribute)
    ensures
        copy == *attr,
;

/// `Block::clone` gives the same block.
pub assume_specification[ <Block as Clone>::clone ](block: &Block) -> (copy: Block)
    ensures
        copy == *block,
;

/// One token tree at the top level of a token stream.
#[derive(Debug)]
pub enum Token {
    /// A word: an identifier or a keyword.
    Word(Ident),
    /// One punctuation character.
    Punct(char),
    /// A delimited group and the tokens inside it.
    Group(Delimiter, TokenStream),
    /// A literal.
    Literal,
}

/// An argument of a function signature, as far as the expansion tells
/// arguments apart.
#[derive(Debug, Clone)]
pub enum Input {
    /// `self` in one of its forms.
    Receiver,
    /// A plain `name: Type`.
    Named { ident: Ident, ty: Type },
    /// A typed argument whose pattern is not a single name.
    Pattern,
}

/// The parts of a function definition that the expansion reads.
#[derive(Debug, Clone)]
pub struct FnParts {
    pub name: Ident,
    pub vis: Visibility,
    pub attrs: Vec<Attribute>,
    pub inputs: Vec<Input>,
    pub body: Block,
}

/// `FnParts` with sequences for its vectors.
pub struct FnPartsView {
    pub name: Ident,
    pub vis: Visibility,
    pub attrs: Seq<Attribute>,
    pub inputs: Seq<Input>,
    pub body: Block,
}

impl View for FnParts {
    type V = FnPartsView;

    open spec fn view(&self) -> FnPartsView {
        FnPartsView {
            name: self.name,
            vis: self.vis,
            attrs: self.attrs@,
            inputs: self.inputs@,
            body: self.body,
        }
    }
}

/// The text of an identifier, as `Ident::to_string` gives it.
pub uninterp spec fn ident_text(ident: Ident) -> Seq<char>;

/// `Ident::to_string`: the identifier as it is written.
#[verifier::external_body]
pub(crate) fn ident_string(ident: &Ident) -> (text: String)
    ensures
        text@ == ident_text(*ident),
{
    ident.to_string()
}

/// A word of letters, digits and `_` that starts with a letter. Every such
/// word can be written as an identifier.
pub open spec fn is_plain_word(text: Seq<char>) -> bool {
    &&& text.len() > 0
    &&& is_letter(text[0])
    &&& forall|i: int|
        0 <= i < text.len() ==> is_letter(#[trigger] text[i]) || is_digit(text[i]) || text[i] == '_'
}

/// `Ident::new` with `Span::call_site()`: an identifier that is written as
/// `text`. `Ident::new` panics on a text that is no word of the language;
/// a plain word is one.
#[verifier::external_body]
pub(crate) fn plain_ident(text: &str) -> (ident: Ident)
    requires
        is_plain_word(text@),
    ensures
        ident_text(ident) == text@,
{
    Ident::new(text, Span::call_site())
}

/// The token trees of a stream, in order.
pub uninterp spec fn stream_tokens(stream: TokenStream) -> Seq<Token>;

/// `TokenStream::into_iter`: the token trees of the stream, each with what
/// it holds (`Punct::as_char`, `Group::delimiter`, `Group::stream`).
#[verifier::external_body]
pub(crate) fn tokens_of(stream: TokenStream) -> (tokens: Vec<Token>)
    ensures
        tokens@ == stream_tokens(stream),
{
    stream
        .into_iter()
        .map(|tree| match tree {
            TokenTree::Ident(ident) => Token::Word(ident),
            TokenTree::Punct(punct) => Token::Punct(punct.as_char()),
            TokenTree::Group(group) => Token::Group(group.delimiter(), group.stream()),
            TokenTree::Literal(_) => Token::Literal,
        })
        .collect()
}

/// Whether `syn` takes a word with this text for an identifier.
pub uninterp spec fn is_identifier(text: Seq<char>) -> bool;

/// `syn::parse2::<Ident>` on the word alone: `syn` takes every word but `_`
/// and those that it lists as keywords, and decides by the word's text.
#[verifier::external_body]
pub(crate) fn accepts_identifier(word: &Ident) -> (accepted: bool)
    ensures
        accepted == is_identifier(ident_text(*word)),
{
    syn::parse2::<Ident>(TokenStream::from(TokenTree::Ident(word.clone()))).is_ok()
}

/// The expressions of a comma-separated list, where the stream is one.
pub uninterp spec fn expressions_in(stream: TokenStream) -> Option<Seq<Expr>>;

/// `Punctuated::<Expr, Token![,]>::parse_terminated` on the whole stream:
/// expressions separated by commas, the last comma optional.
#[verifier::external_body]
pub(crate) fn parse_expressions(stream: &TokenStream) -> (parsed: Result<Vec<Expr>, syn::Error>)
    ensures
        match parsed {
            Ok(exprs) => expressions_in(*stream) == Some(exprs@),
            Err(_) => expressions_in(*stream) is None,
        },
{
    let list = Punctuated::<Expr, syn::token::Comma>::parse_terminated.parse2(stream.clone())?;
    Ok(list.into_iter().collect())
}

/// The parts of the function definition that a stream holds, where it
/// holds one.
pub uninterp spec fn function_in(stream: TokenStream) -> Option<FnPartsView>;

/// `syn::parse2::<ItemFn>`: the stream as one function definition. Of the
/// definition the fields `sig.ident`, `vis`, `attrs`, `sig.inputs` and
/// `block` are kept. An argument is told by the variants of `FnArg`, and
/// under `FnArg::Typed` by those of `Pat`: a plain `name: Type` is a
/// `Pat::Ident`, whose `ident` is the name, with the type `ty`.
#[verifier::external_body]
pub(crate) fn parse_function(stream: TokenStream) -> (parsed: Result<FnParts, syn::Error>)
    ensures
        match parsed {
            Ok(parts) => function_in(stream) == Some(parts@),
            Err(_) => function_in(stream) is None,
        },
{
    let ItemFn { attrs, vis, sig, block } = syn::parse2::<ItemFn>(stream)?;
    let inputs = sig.inputs.into_iter().map(|arg| match arg {
        FnArg::Receiver(_) => Input::Receiver,
        FnArg::Typed(PatType { pat, ty, .. }) => match *pat {
            Pat::Ident(PatIdent { ident, .. }) => Input::Named { ident, ty: *ty },
            _ => Input::Pattern,
        },
    });
    Ok(FnParts { name: sig.ident, vis, attrs, inputs: inputs.collect(), body: *block })
}

/// Whether the attribute's path is the single word `test`.
pub uninterp spec fn marks_test(attr: Attribute) -> bool;

/// `Path::is_ident("test")` on the attribute's path.
#[verifier::external_body]
pub(crate) fn is_test_marker(attr: &Attribute) -> (marker: bool)
    ensures
        marker == marks_test(*attr),
{
    attr.path.is_ident("test")
}

} // verus!
