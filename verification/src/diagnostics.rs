//! The words in which a refused expansion is reported.

use crate::error::{Expected, ExpansionError, ListLength};
use crate::syntax::{ident_string, ident_text};
use crate::text::{decimal, decimal_digits};
use crate::validation::listing;
use vstd::prelude::*;

verus! {

/// What the grammar wanted, in words.
pub open spec fn expected_text(expected: Expected) -> Seq<char> {
    match expected {
        Expected::Identifier => "an identifier"@,
        Expected::Assignment => "`=`"@,
        Expected::Braces => "a list in braces"@,
        Expected::Expressions => "expressions separated by commas"@,
        Expected::Comma => "`,`"@,
        Expected::Function => "a function"@,
    }
}

/// `name: length`.
pub open spec fn entry_text(entry: (Seq<char>, nat)) -> Seq<char> {
    entry.0 + ": "@ + decimal_digits(entry.1)
}

/// The entries of a listing, separated by commas.
pub open spec fn joined(entries: Seq<(Seq<char>, nat)>) -> Seq<char>
    decreases entries.len(),
{
    if entries.len() == 0 {
        Seq::empty()
    } else if entries.len() == 1 {
        entry_text(entries[0])
    } else {
        joined(entries.drop_last()) + ", "@ + entry_text(entries.last())
    }
}

/// The message that reports `error`.
pub open spec fn message_text(error: ExpansionError) -> Seq<char> {
    match error {
        ExpansionError::Syntax(syntax) => "[parameterized-macro] error: expected "@ + expected_text(
            syntax.expected,
        ) + " at token "@ + decimal_digits(syntax.at as nat),
        ExpansionError::MalformedParameter { position } =>
            "[parameterized-macro] error: the function argument at position "@ + decimal_digits(
            position as nat,
        ) + " should be a name with a type"@,
        ExpansionError::DuplicateIdentifier { id } =>
            "[parameterized-macro] error: duplicate identifier '"@ + ident_text(id)
            + "' found; please use unique parameter names"@,
        ExpansionError::UnequalLength { id, expected, found, lengths } =>
            "[parameterized-macro] error: inconsistent argument list length for '"@ + ident_text(
            id,
        ) + "': expected "@ + decimal_digits(expected as nat) + ", found "@ + decimal_digits(
            found as nat,
        ) + "; all inputs ("@ + joined(listing(lengths@)) + ") should have equal length"@,
        ExpansionError::UnknownParameter { id } =>
            "[parameterized-macro] error: no matching parameter or values found for '"@
            + ident_text(id) + "'"@,
        ExpansionError::ArityMismatch { case, expected, found } =>
            "[parameterized-macro] error: the case '"@ + ident_text(case) + "' gives "@
            + decimal_digits(found as nat) + " arguments to a function of "@ + decimal_digits(
            expected as nat,
        ) + " parameters"@,
        ExpansionError::CaseIdsExhausted =>
            "[parameterized-macro] error: no numbers are left for the generated cases"@,
    }
}

fn expected_words(expected: Expected) -> (words: &'static str)
    ensures
        words@ == expected_text(expected),
{
    match expected {
        Expected::Identifier => "an identifier",
        Expected::Assignment => "`=`",
        Expected::Braces => "a list in braces",
        Expected::Expressions => "expressions separated by commas",
        Expected::Comma => "`,`",
        Expected::Function => "a function",
    }
}

fn join(lengths: &Vec<ListLength>) -> (text: String)
    ensures
        text@ == joined(listing(lengths@)),
{
    let mut text = String::new();
    let mut i: usize = 0;
    while i < lengths.len()
        invariant
            i <= lengths.len(),
            text@ == joined(listing(lengths@).take(i as int)),
        decreases lengths.len() - i,
    {
        let ghost before = text@;
        if i > 0 {
            text.append(", ");
        }
        text.append(lengths[i].name.as_str());
        text.append(": ");
        text.append(decimal(lengths[i].length).as_str());
        proof {
            let seen = listing(lengths@).take(i as int);
            let next = listing(lengths@).take(i + 1);
            assert(next.drop_last() == seen);
            if i == 0 {
                assert(before =~= Seq::<char>::empty());
            } else {
                assert(text@ =~= joined(seen) + ", "@ + entry_text(next.last()));
            }
        }
        i = i + 1;
    }
    assert(listing(lengths@).take(i as int) == listing(lengths@));
    text
}

impl ExpansionError {
    /// The message that reports the error.
    pub fn message(&self) -> (text: String)
        ensures
            text@ == message_text(*self),
    {
        match self {
            ExpansionError::Syntax(syntax) => {
                let mut text = String::from_str("[parameterized-macro] error: expected ");
                text.append(expected_words(syntax.expected));
                text.append(" at token ");
                text.append(decimal(syntax.at).as_str());
                text
            },
            ExpansionError::MalformedParameter { position } => {
                let mut text = String::from_str(
                    "[parameterized-macro] error: the function argument at position ",
                );
                text.append(decimal(*position).as_str());
                text.append(" should be a name with a type");
                text
            },
            ExpansionError::DuplicateIdentifier { id } => {
                let mut text = String::from_str(
                    "[parameterized-macro] error: duplicate identifier '",
                );
                text.append(ident_string(id).as_str());
                text.append("' found; please use unique parameter names");
                text
            },
            ExpansionError::UnequalLength { id, expected, found, lengths } => {
                let mut text = String::from_str(
                    "[parameterized-macro] error: inconsistent argument list length for '",
                );
                text.append(ident_string(id).as_str());
                text.append("': expected ");
                text.append(decimal(*expected).as_str());
                text.append(", found ");
                text.append(decimal(*found).as_str());
                text.append("; all inputs (");
                text.append(join(lengths).as_str());
                text.append(") should have equal length");
                text
            },
            ExpansionError::UnknownParameter { id } => {
                let mut text = String::from_str(
                    "[parameterized-macro] error: no matching parameter or values found for '",
                );
                text.append(ident_string(id).as_str());
                text.append("'");
                text
            },
            ExpansionError::ArityMismatch { case, expected, found } => {
                let mut text = String::from_str("[parameterized-macro] error: the case '");
                text.append(ident_string(case).as_str());
                text.append("' gives ");
                text.append(decimal(*found).as_str());
                text.append(" arguments to a function of ");
                text.append(decimal(*expected).as_str());
                text.append(" parameters");
                text
            },
            ExpansionError::CaseIdsExhausted => String::from_str(
                "[parameterized-macro] error: no numbers are left for the generated cases",
            ),
        }
    }
}

} // verus!
