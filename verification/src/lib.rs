//! Parameterized tests: one test function, written once, is expanded into a
//! test case for each set of values that an attribute declares for its
//! parameters.
//!
//! The attribute declares either a list of values for each parameter,
//! `v = { 1, 2, 3 }, w = { 4, 5, 6 }`, or the cases one by one,
//! `first = { 1, 4 }, second = { 2, 5 }`. The expansion reads the attribute
//! and the function, checks that they fit, and generates a module with one
//! case for each set of values. A case binds each parameter to its value and
//! goes on with the body of the function.

pub mod attribute;
pub mod case_by_case;
pub mod counter;
pub mod diagnostics;
pub mod error;
pub mod fun;
pub mod generated;
pub mod index;
pub mod laws;
pub mod north_pole;
pub mod restructure;
pub mod syntax;
pub mod text;
pub mod validation;
pub mod wine;

use crate::attribute::{lists_from, ParameterListView, ParameterizedList};
use crate::case_by_case::{
    fits, impl_case_by_case, is_case_by_case_module, is_case_by_case_refusal,
};
use crate::counter::CaseCounter;
use crate::error::{Expected, ExpansionError, SyntaxFault};
use crate::fun::{all_named, is_first_malformed, parameters_of, TestFn, TestFnView};
use crate::generated::GeneratedModule;
use crate::restructure::{impl_value_source, is_value_source_module, is_value_source_refusal};
use crate::syntax::{function_in, stream_tokens, FnPartsView};
use crate::validation::{case_count, distinct, names, well_formed};
use proc_macro2::TokenStream;
use vstd::prelude::*;

verus! {

/// How the attribute declares the cases.
#[derive(Debug, Clone, Copy, PartialEq, Eq, Structural)]
pub enum ExpansionMode {
    /// A list of values for each parameter; the case `i` takes the value at
    /// `i` of every list.
    ValueSource,
    /// One declaration for each case, with the name of the case and its
    /// arguments.
    CaseByCase,
}

/// `expanded` is what the declarations generate for the function `target`
/// in the given mode, with a counter that stood at `before` and now stands
/// at `after`.
pub open spec fn is_expansion(
    mode: ExpansionMode,
    expanded: Result<GeneratedModule, ExpansionError>,
    lists: Seq<ParameterListView>,
    target: TestFnView,
    before: nat,
    after: nat,
) -> bool {
    match mode {
        ExpansionMode::ValueSource => {
            &&& expanded is Ok <==> well_formed(lists, target.params) && before + case_count(lists)
                <= usize::MAX
            &&& match expanded {
                Ok(module) => is_value_source_module(module@, lists, target, before) && after
                    == before + case_count(lists),
                Err(error) => is_value_source_refusal(error, lists, target.params, before) && after
                    == before,
            }
        },
        ExpansionMode::CaseByCase => {
            &&& expanded is Ok <==> distinct(names(lists)) && fits(lists, target.params.len())
            &&& after == before
            &&& match expanded {
                Ok(module) => is_case_by_case_module(module@, lists, target),
                Err(error) => is_case_by_case_refusal(error, lists, target.params),
            }
        },
    }
}

/// The function that a definition with these parts declares, where each of
/// its arguments is a plain `name: Type`.
pub open spec fn target_of(parts: FnPartsView) -> TestFnView {
    TestFnView {
        name: parts.name,
        vis: parts.vis,
        attrs: parts.attrs,
        params: parameters_of(parts.inputs),
        body: parts.body,
    }
}

/// Expands the function under the attribute: `args` are the arguments of
/// the attribute, `input` is the function.
///
/// The arguments are read first, then the function; what does not parse
/// is refused, and so is a function with a receiver or another argument
/// that is no plain `name: Type`. What has been read is expanded by
/// `impl_with_feature`. Where the expansion is refused, nothing is
/// generated and the counter stays as it is.
pub fn parameterized(
    mode: ExpansionMode,
    args: TokenStream,
    input: TokenStream,
    counter: &mut CaseCounter,
) -> (expanded: Result<GeneratedModule, ExpansionError>)
    ensures
        match lists_from(stream_tokens(args), 0) {
            Err(fault) => {
                &&& expanded matches Err(ExpansionError::Syntax(error))
                &&& error@ == fault
                &&& error.has_its_cause()
                &&& final(counter).next_id() == old(counter).next_id()
            },
            Ok(lists) => match function_in(input) {
                None => {
                    &&& expanded matches Err(ExpansionError::Syntax(error))
                    &&& error@ == (SyntaxFault { at: 0, expected: Expected::Function })
                    &&& error.has_its_cause()
                    &&& final(counter).next_id() == old(counter).next_id()
                },
                Some(parts) => if all_named(parts.inputs) {
                    is_expansion(
                        mode,
                        expanded,
                        lists,
                        target_of(parts),
                        old(counter).next_id(),
                        final(counter).next_id(),
                    )
                } else {
                    &&& expanded matches Err(ExpansionError::MalformedParameter { position })
                    &&& is_first_malformed(parts.inputs, position as int)
                    &&& final(counter).next_id() == old(counter).next_id()
                },
            },
        },
{
    let lists = match ParameterizedList::parse(args) {
        Ok(lists) => lists,
        Err(error) => {
            return Err(ExpansionError::Syntax(error));
        },
    };
    let fun = match TestFn::parse(input) {
        Ok(fun) => fun,
        Err(error) => {
            return Err(error);
        },
    };
    impl_with_feature(mode, &lists, &fun, counter)
}

/// Expands the declarations `lists` for the function `fun` in the given
/// mode.
pub fn impl_with_feature(
    mode: ExpansionMode,
    lists: &ParameterizedList,
    fun: &TestFn,
    counter: &mut CaseCounter,
) -> (expanded: Result<GeneratedModule, ExpansionError>)
    ensures
        is_expansion(
            mode,
            expanded,
            lists@,
            fun@,
            old(counter).next_id(),
            final(counter).next_id(),
        ),
{
    match mode {
        ExpansionMode::ValueSource => impl_value_source(lists, fun, counter),
        ExpansionMode::CaseByCase => impl_case_by_case(lists, fun),
    }
}

} // verus!
