use parameterized::attribute::{ParameterList, ParameterizedList};
use parameterized::error::{Expected, SyntaxError};
use parameterized::syntax::Token;
use proc_macro2::{Delimiter, TokenStream};
use quote::ToTokens;

fn tokens(text: &str) -> TokenStream {
    text.parse().unwrap()
}

fn written<T: ToTokens>(node: &T) -> String {
    node.to_token_stream().to_string()
}

fn parsed(text: &str) -> ParameterizedList {
    ParameterizedList::parse(tokens(text)).unwrap()
}

fn refused(text: &str) -> SyntaxError {
    match ParameterizedList::parse(tokens(text)) {
        Ok(_) => panic!("`{}` was read as a list", text),
        Err(error) => error,
    }
}

fn values(list: &ParameterList) -> Vec<String> {
    list.param_args.iter().map(written).collect()
}

#[test]
fn reads_one_list() {
    let lists = parsed("v = { 1, 2, 3 }");
    assert_eq!(lists.args.len(), 1);
    assert_eq!(lists.args[0].id.to_string(), "v");
    assert_eq!(values(&lists.args[0]), vec!["1", "2", "3"]);
}

#[test]
fn reads_the_lists_in_the_order_of_their_declaration() {
    let lists = parsed("zeta = { 'a', 'b' }, alpha = { 1, 2 }, mid = { x, y }");
    let ids: Vec<String> = lists.args.iter().map(|list| list.id.to_string()).collect();
    assert_eq!(ids, vec!["zeta", "alpha", "mid"]);
    assert_eq!(values(&lists.args[0]), vec!["'a'", "'b'"]);
    assert_eq!(values(&lists.args[1]), vec!["1", "2"]);
    assert_eq!(values(&lists.args[2]), vec!["x", "y"]);
}

#[test]
fn takes_a_comma_behind_the_last_expression_and_the_last_list() {
    let lists = parsed("v = { 1, 2, 3, }, w = { 1, 2, 3, },");
    assert_eq!(lists.args.len(), 2);
    assert_eq!(values(&lists.args[0]), vec!["1", "2", "3"]);
    assert_eq!(values(&lists.args[1]), vec!["1", "2", "3"]);
}

#[test]
fn reads_lists_over_several_lines() {
    let lists = parsed("input = {\n    -2, -1, 0, 1, 2\n}, expected = {\n    4, 1, 0, 1, 4\n}");
    assert_eq!(lists.args.len(), 2);
    assert_eq!(values(&lists.args[0]), vec!["- 2", "- 1", "0", "1", "2"]);
    assert_eq!(values(&lists.args[1]), vec!["4", "1", "0", "1", "4"]);
}

#[test]
fn reads_nothing_from_nothing() {
    assert_eq!(parsed("").args.len(), 0);
}

#[test]
fn reads_a_list_without_values() {
    let lists = parsed("v = { }");
    assert_eq!(lists.args.len(), 1);
    assert_eq!(lists.args[0].param_args.len(), 0);
}

#[test]
fn leaves_the_commas_inside_an_expression_to_the_expression() {
    let lists = parsed("v = { f(1, 2), HashMap::<u8, u8>::new(), |a, b| a + b, (1, 2) }");
    assert_eq!(lists.args[0].param_args.len(), 4);
    assert_eq!(written(&lists.args[0].param_args[0]), "f (1 , 2)");
    assert_eq!(written(&lists.args[0].param_args[3]), "(1 , 2)");
}

#[test]
fn reads_expressions_of_every_kind() {
    let lists = parsed(
        "v = { None, Some(1), Ok::<u8, ()>(2), A::One, B::Two(\"b\"), WineRegion::Loire(LoireArea::Nantes), -3 }",
    );
    assert_eq!(lists.args[0].param_args.len(), 7);
}

#[test]
fn wants_an_identifier_first() {
    let error = refused("1 = { 1 }");
    assert_eq!((error.at, error.expected), (0, Expected::Identifier));
    assert!(error.cause.is_none());
}

#[test]
fn takes_no_keyword_for_an_identifier() {
    let error = refused("fn = { 1 }");
    assert_eq!((error.at, error.expected), (0, Expected::Identifier));
    let error = refused("v = { 1 }, _ = { 2 }");
    assert_eq!((error.at, error.expected), (4, Expected::Identifier));
}

#[test]
fn takes_a_raw_identifier() {
    let lists = parsed("r#type = { 1 }");
    assert_eq!(lists.args[0].id.to_string(), "r#type");
}

#[test]
fn wants_an_assignment_behind_the_identifier() {
    let error = refused("v { 1 }");
    assert_eq!((error.at, error.expected), (1, Expected::Assignment));
    let error = refused("v : { 1 }");
    assert_eq!((error.at, error.expected), (1, Expected::Assignment));
    let error = refused("v");
    assert_eq!((error.at, error.expected), (1, Expected::Assignment));
}

#[test]
fn wants_braces_behind_the_assignment() {
    let error = refused("v = [ 1, 2 ]");
    assert_eq!((error.at, error.expected), (2, Expected::Braces));
    let error = refused("v = ( 1, 2 )");
    assert_eq!((error.at, error.expected), (2, Expected::Braces));
    let error = refused("v = 1");
    assert_eq!((error.at, error.expected), (2, Expected::Braces));
    let error = refused("v = ");
    assert_eq!((error.at, error.expected), (2, Expected::Braces));
    let error = refused("v == { 1 }");
    assert_eq!((error.at, error.expected), (2, Expected::Braces));
}

#[test]
fn wants_expressions_between_the_braces() {
    let error = refused("v = { 1, 2 }, w = { let }");
    assert_eq!((error.at, error.expected), (6, Expected::Expressions));
    assert!(error.cause.is_some());
    let error = refused("v = { 1 2 }");
    assert_eq!((error.at, error.expected), (2, Expected::Expressions));
    let error = refused("v = { , }");
    assert_eq!((error.at, error.expected), (2, Expected::Expressions));
}

#[test]
fn wants_a_comma_between_two_lists() {
    let error = refused("v = { 1 } w = { 2 }");
    assert_eq!((error.at, error.expected), (3, Expected::Comma));
    let error = refused("v = { 1 }; w = { 2 }");
    assert_eq!((error.at, error.expected), (3, Expected::Comma));
}

#[test]
fn takes_one_comma_only_behind_a_list() {
    let error = refused("v = { 1 },, w = { 2 }");
    assert_eq!((error.at, error.expected), (4, Expected::Identifier));
}

#[test]
fn reads_a_list_at_any_place_of_the_tokens() {
    let ident: proc_macro2::Ident = syn::parse_str("w").unwrap();
    let stream = vec![
        Token::Punct(','),
        Token::Word(ident),
        Token::Punct('='),
        Token::Group(Delimiter::Brace, tokens("10, 20")),
    ];
    let list = ParameterList::parse(&stream, 1).unwrap();
    assert_eq!(list.id.to_string(), "w");
    assert_eq!(values(&list), vec!["10", "20"]);
    let error = ParameterList::parse(&stream, 0).unwrap_err();
    assert_eq!((error.at, error.expected), (0, Expected::Identifier));
    let error = ParameterList::parse(&stream, 4).unwrap_err();
    assert_eq!((error.at, error.expected), (4, Expected::Identifier));
    let error = ParameterList::parse(&stream, 2).unwrap_err();
    assert_eq!((error.at, error.expected), (2, Expected::Identifier));
}

#[test]
fn reads_the_lists_from_tokens() {
    let first: proc_macro2::Ident = syn::parse_str("v").unwrap();
    let stream = vec![
        Token::Word(first),
        Token::Punct('='),
        Token::Group(Delimiter::Brace, tokens("1")),
        Token::Punct(','),
    ];
    let lists = ParameterizedList::from_tokens(&stream).unwrap();
    assert_eq!(lists.args.len(), 1);
    assert_eq!(lists.args[0].describe(), "ParameterList(id = v)");
}
