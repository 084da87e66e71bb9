//! The arguments of the attribute: `id = { expr, expr, ... }`, one list after
//! the other, separated by commas. A comma may follow the last list and the
//! last expression of a list.

use crate::error::{Expected, SyntaxError, SyntaxFault};
use crate::syntax::{
    accepts_identifier, expressions_in, ident_string, ident_text, is_identifier, parse_expressions,
    stream_tokens, tokens_of, Token,
};
use proc_macro2::{Delimiter, Ident, TokenStream};
use syn::Expr;
use vstd::prelude::*;

verus! {

/// An ordered list of attribute arguments, which consists of (id, param-args)
/// pairs.
#[derive(Debug, Clone)]
pub struct ParameterizedList {
    pub args: Vec<ParameterList>,
}

/// A single (id, param-args) pair: the identifier of the list and its
/// expressions in the order in which they are written, as in
/// `parameter_name = { 3, 4, 5 }`.
#[derive(Debug, Clone)]
pub struct ParameterList {
    pub id: Ident,
    pub param_args: Vec<Expr>,
}

/// A `ParameterList` with a sequence for its vector.
pub struct ParameterListView {
    pub id: Ident,
    pub values: Seq<Expr>,
}

impl View for ParameterList {
    type V = ParameterListView;

    open spec fn view(&self) -> ParameterListView {
        ParameterListView { id: self.id, values: self.param_args@ }
    }
}

impl View for ParameterizedList {
    type V = Seq<ParameterListView>;

    open spec fn view(&self) -> Seq<ParameterListView> {
        Seq::new(self.args@.len(), |i: int| self.args@[i]@)
    }
}

/// A word that `syn` takes for an identifier.
pub open spec fn is_identifier_token(token: Token) -> bool {
    match token {
        Token::Word(word) => is_identifier(ident_text(word)),
        _ => false,
    }
}

/// A group in braces.
pub open spec fn is_braces(token: Token) -> bool {
    match token {
        Token::Group(Delimiter::Brace, _) => true,
        _ => false,
    }
}

/// Why no list starts at `at`; `None` where one does. A list takes three
/// tokens: an identifier, `=`, and braces around expressions.
pub open spec fn list_fault(tokens: Seq<Token>, at: int) -> Option<SyntaxFault> {
    if !(at < tokens.len() && is_identifier_token(tokens[at])) {
        Some(SyntaxFault { at, expected: Expected::Identifier })
    } else if !(at + 1 < tokens.len() && tokens[at + 1] == Token::Punct('=')) {
        Some(SyntaxFault { at: at + 1, expected: Expected::Assignment })
    } else if !(at + 2 < tokens.len() && is_braces(tokens[at + 2])) {
        Some(SyntaxFault { at: at + 2, expected: Expected::Braces })
    } else if expressions_in(tokens[at + 2]->Group_1) is None {
        Some(SyntaxFault { at: at + 2, expected: Expected::Expressions })
    } else {
        None
    }
}

/// The list that starts at `at`, where one does.
pub open spec fn list_at(tokens: Seq<Token>, at: int) -> ParameterListView {
    ParameterListView {
        id: tokens[at]->Word_0,
        values: expressions_in(tokens[at + 2]->Group_1).unwrap(),
    }
}

/// The lists that the tokens from `at` on hold, or the first place where
/// they are no lists.
pub open spec fn lists_from(tokens: Seq<Token>, at: int) -> Result<
    Seq<ParameterListView>,
    SyntaxFault,
>
    decreases tokens.len() - at,
{
    if at >= tokens.len() {
        Ok(Seq::empty())
    } else {
        match list_fault(tokens, at) {
            Some(fault) => Err(fault),
            None => {
                if at + 3 >= tokens.len() {
                    Ok(seq![list_at(tokens, at)])
                } else if tokens[at + 3] != Token::Punct(',') {
                    Err(SyntaxFault { at: at + 3, expected: Expected::Comma })
                } else {
                    match lists_from(tokens, at + 4) {
                        Ok(rest) => Ok(seq![list_at(tokens, at)] + rest),
                        Err(fault) => Err(fault),
                    }
                }
            },
        }
    }
}

/// The three tokens at `at` spell the list: its identifier, `=`, and braces
/// around its expressions.
pub open spec fn spells_list(tokens: Seq<Token>, at: int, list: ParameterListView) -> bool {
    &&& tokens[at] == Token::Word(list.id)
    &&& is_identifier(ident_text(list.id))
    &&& tokens[at + 1] == Token::Punct('=')
    &&& is_braces(tokens[at + 2])
    &&& expressions_in(tokens[at + 2]->Group_1) == Some(list.values)
}

/// The tokens from `at` on spell the lists: every list takes three tokens,
/// a comma stands between two lists, and a comma may stand behind the
/// last.
pub open spec fn spells(tokens: Seq<Token>, at: int, lists: Seq<ParameterListView>) -> bool {
    let left = tokens.len() - at;
    &&& left == 4 * lists.len() || (lists.len() > 0 && left == 4 * lists.len() - 1)
    &&& forall|j: int| 0 <= j < lists.len() ==> spells_list(tokens, at + 4 * j, #[trigger] lists[j])
    &&& forall|j: int|
        0 <= j < lists.len() && at + 4 * j + 3 < tokens.len() ==> #[trigger] tokens[at + 4 * j + 3]
            == Token::Punct(',')
}

/// The tokens are read as the lists that they spell, and as no others.
pub proof fn lists_are_read_as_they_are_spelled(
    tokens: Seq<Token>,
    at: int,
    lists: Seq<ParameterListView>,
)
    requires
        0 <= at <= tokens.len(),
    ensures
        spells(tokens, at, lists) <==> lists_from(tokens, at) == Ok::<_, SyntaxFault>(lists),
    decreases tokens.len() - at,
{
    let first = list_at(tokens, at);
    let rest = lists.skip(1);
    if at >= tokens.len() {
        if spells(tokens, at, lists) {
            assert(lists =~= Seq::empty());
        }
    } else if list_fault(tokens, at) is Some {
        if spells(tokens, at, lists) {
            assert(spells_list(tokens, at + 4 * 0, lists[0]));
        }
    } else if at + 3 >= tokens.len() {
        if spells(tokens, at, lists) {
            assert(lists =~= seq![first]);
        }
        if lists_from(tokens, at) == Ok::<_, SyntaxFault>(lists) {
            assert(spells_list(tokens, at + 4 * 0, lists[0]));
        }
    } else if tokens[at + 3] == Token::Punct(',') {
        lists_are_read_as_they_are_spelled(tokens, at + 4, rest);
        if spells(tokens, at, lists) {
            assert forall|j: int| 0 <= j < rest.len() implies spells_list(
                tokens,
                at + 4 + 4 * j,
                #[trigger] rest[j],
            ) by {
                assert(spells_list(tokens, at + 4 * (j + 1), lists[j + 1]));
            }
            assert forall|j: int| 0 <= j < rest.len() && at + 4 + 4 * j + 3 < tokens.len() implies
                #[trigger] tokens[at + 4 + 4 * j + 3] == Token::Punct(',') by {
                assert(tokens[at + 4 * (j + 1) + 3] == Token::Punct(','));
            }
            assert(lists =~= seq![first] + rest);
        }
        if lists_from(tokens, at) == Ok::<_, SyntaxFault>(lists) {
            assert(rest =~= lists_from(tokens, at + 4)->Ok_0);
            assert forall|j: int| 0 <= j < lists.len() implies spells_list(
                tokens,
                at + 4 * j,
                #[trigger] lists[j],
            ) by {
                if j > 0 {
                    assert(spells_list(tokens, at + 4 + 4 * (j - 1), rest[j - 1]));
                }
            }
            assert forall|j: int| 0 <= j < lists.len() && at + 4 * j + 3 < tokens.len() implies
                #[trigger] tokens[at + 4 * j + 3] == Token::Punct(',') by {
                if j > 0 {
                    assert(tokens[at + 4 + 4 * (j - 1) + 3] == Token::Punct(','));
                }
            }
        }
    }
}

/// A comma may follow the last list: tokens that are read as lists, and
/// that do not end in a comma, are read as the same lists with a comma
/// behind them.
pub proof fn a_comma_may_follow_the_last_list(tokens: Seq<Token>, at: int)
    requires
        0 <= at < tokens.len(),
        lists_from(tokens, at) is Ok,
        tokens.last() != Token::Punct(','),
    ensures
        lists_from(tokens.push(Token::Punct(',')), at) == lists_from(tokens, at),
    decreases tokens.len() - at,
{
    let longer = tokens.push(Token::Punct(','));
    let last = seq![list_at(tokens, at)];
    if at + 3 >= tokens.len() {
        let nothing = Seq::<ParameterListView>::empty();
        assert(lists_from(longer, at + 4) == Ok::<_, SyntaxFault>(nothing));
        assert(last + nothing =~= last);
    } else {
        a_comma_may_follow_the_last_list(tokens, at + 4);
    }
}

impl ParameterList {
    /// The list in short: its identifier.
    pub fn describe(&self) -> (text: String)
        ensures
            text@ == "ParameterList(id = "@ + ident_text(self.id) + ")"@,
    {
        let mut text = String::from_str("ParameterList(id = ");
        text.append(ident_string(&self.id).as_str());
        text.append(")");
        text
    }

    /// Reads the list that starts with the token at `at`.
    pub fn parse(tokens: &Vec<Token>, at: usize) -> (parsed: Result<ParameterList, SyntaxError>)
        ensures
            match parsed {
                Ok(list) => list_fault(tokens@, at as int) is None && list@ == list_at(
                    tokens@,
                    at as int,
                ),
                Err(error) => list_fault(tokens@, at as int) == Some(error@)
                    && error.has_its_cause(),
            },
    {
        if at >= tokens.len() {
            return Err(SyntaxError { at, expected: Expected::Identifier, cause: None });
        }
        let id = match &tokens[at] {
            Token::Word(word) => {
                if !accepts_identifier(word) {
                    return Err(SyntaxError { at, expected: Expected::Identifier, cause: None });
                }
                word.clone()
            },
            _ => {
                return Err(SyntaxError { at, expected: Expected::Identifier, cause: None });
            },
        };
        if at + 1 >= tokens.len() {
            return Err(SyntaxError { at: at + 1, expected: Expected::Assignment, cause: None });
        }
        match &tokens[at + 1] {
            Token::Punct(c) if *c == '=' => {},
            _ => {
                return Err(
                    SyntaxError { at: at + 1, expected: Expected::Assignment, cause: None },
                );
            },
        }
        if at + 2 >= tokens.len() {
            return Err(SyntaxError { at: at + 2, expected: Expected::Braces, cause: None });
        }
        match &tokens[at + 2] {
            Token::Group(Delimiter::Brace, stream) => match parse_expressions(stream) {
                Ok(param_args) => Ok(ParameterList { id, param_args }),
                Err(cause) => Err(
                    SyntaxError { at: at + 2, expected: Expected::Expressions, cause: Some(cause) },
                ),
            },
            _ => Err(SyntaxError { at: at + 2, expected: Expected::Braces, cause: None }),
        }
    }
}

impl ParameterizedList {
    /// Reads the arguments of the attribute.
    pub fn parse(input: TokenStream) -> (parsed: Result<ParameterizedList, SyntaxError>)
        ensures
            match parsed {
                Ok(lists) => lists_from(stream_tokens(input), 0) == Ok::<_, SyntaxFault>(lists@),
                Err(error) => lists_from(stream_tokens(input), 0) == Err::<
                    Seq<ParameterListView>,
                    _,
                >(error@) && error.has_its_cause(),
            },
    {
        let tokens = tokens_of(input);
        ParameterizedList::from_tokens(&tokens)
    }

    /// Reads the arguments of the attribute from its top-level tokens.
    pub fn from_tokens(tokens: &Vec<Token>) -> (parsed: Result<ParameterizedList, SyntaxError>)
        ensures
            match parsed {
                Ok(lists) => lists_from(tokens@, 0) == Ok::<_, SyntaxFault>(lists@),
                Err(error) => lists_from(tokens@, 0) == Err::<Seq<ParameterListView>, _>(error@)
                    && error.has_its_cause(),
            },
    {
        let mut lists = ParameterizedList { args: Vec::new() };
        let mut at: usize = 0;
        while at < tokens.len()
            invariant
                at <= tokens.len() + 1,
                lists_from(tokens@, 0) == match lists_from(tokens@, at as int) {
                    Ok(rest) => Ok(lists@ + rest),
                    Err(fault) => Err(fault),
                },
            decreases tokens.len() + 1 - at,
        {
            let list = match ParameterList::parse(tokens, at) {
                Ok(list) => list,
                Err(error) => {
                    return Err(error);
                },
            };
            let ghost before = lists@;
            lists.args.push(list);
            assert(lists@ == before + seq![list_at(tokens@, at as int)]);
            if at + 3 >= tokens.len() {
                return Ok(lists);
            }
            match &tokens[at + 3] {
                Token::Punct(c) if *c == ',' => {},
                _ => {
                    return Err(SyntaxError { at: at + 3, expected: Expected::Comma, cause: None });
                },
            }
            proof {
                let group = seq![list_at(tokens@, at as int)];
                assert forall|rest: Seq<ParameterListView>| before + (group + rest) == (before
                    + group) + rest by {
                    assert(before + (group + rest) =~= (before + group) + rest);
                }
            }
            at = at + 4;
        }
        Ok(lists)
    }
}

} // verus!
