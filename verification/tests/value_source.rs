use parameterized::attribute::ParameterizedList;
use parameterized::counter::CaseCounter;
use parameterized::error::ExpansionError;
use parameterized::fun::TestFn;
use parameterized::generated::{
    module_of, CaseAttribute, GeneratedCase, GeneratedModule, Import, ModuleAttribute,
};
use parameterized::restructure::{
    case_ident, create_binding, impl_value_source, remove_test_attribute,
};
use parameterized::validation::{
    check_all_input_lengths, check_identifiers_known, index_identifiers, sorted_lengths,
};
use parameterized::{impl_with_feature, parameterized, ExpansionMode};
use proc_macro2::TokenStream;
use quote::ToTokens;

fn tokens(text: &str) -> TokenStream {
    text.parse().unwrap()
}

fn written<T: ToTokens>(node: &T) -> String {
    node.to_token_stream().to_string()
}

fn lists(text: &str) -> ParameterizedList {
    ParameterizedList::parse(tokens(text)).unwrap()
}

fn function(text: &str) -> TestFn {
    TestFn::parse(tokens(text)).unwrap()
}

fn expand(args: &str, input: &str) -> Result<GeneratedModule, ExpansionError> {
    let mut counter = CaseCounter::new();
    parameterized(ExpansionMode::ValueSource, tokens(args), tokens(input), &mut counter)
}

fn bindings(case: &GeneratedCase) -> Vec<String> {
    case.bindings
        .iter()
        .map(|b| format!("let {}: {} = {};", b.ident, written(&b.ty), written(&b.expr)))
        .collect()
}

fn attributes(case: &GeneratedCase) -> Vec<String> {
    case.attrs
        .iter()
        .map(|attr| match attr {
            CaseAttribute::TestMarker => "#[test]".to_string(),
            CaseAttribute::Copied(copied) => written(copied),
        })
        .collect()
}

fn names(module: &GeneratedModule) -> Vec<String> {
    module.cases.iter().map(|case| case.name.to_string()).collect()
}

#[test]
fn three_values_make_three_cases() {
    let module = expand("v = { 1, 2, 3 }", "fn numbers(v: i32) { assert!(v > 0); }").unwrap();
    assert_eq!(module.name.to_string(), "numbers");
    assert_eq!(module.attrs, vec![ModuleAttribute::TestsOnly]);
    assert_eq!(module.imports, vec![Import::Surrounding]);
    assert_eq!(names(&module), vec!["case_0", "case_1", "case_2"]);
    assert_eq!(bindings(&module.cases[0]), vec!["let v: i32 = 1;"]);
    assert_eq!(bindings(&module.cases[1]), vec!["let v: i32 = 2;"]);
    assert_eq!(bindings(&module.cases[2]), vec!["let v: i32 = 3;"]);
    for case in &module.cases {
        assert_eq!(written(&case.body), "{ assert ! (v > 0) ; }");
        assert_eq!(attributes(case), vec!["#[test]"]);
        assert_eq!(written(&case.vis), "");
        let value: syn::LitInt = syn::parse2(case.bindings[0].expr.to_token_stream()).unwrap();
        assert!(value.base10_parse::<i32>().unwrap() > 0);
    }
}

#[test]
fn each_case_binds_every_parameter_to_the_value_at_its_place() {
    let module = expand(
        "input = { 0, 1, 2 }, expected = { 5, 6, 7 }",
        "fn test_add5(input: u16, expected: u32) { assert_eq!(add5(input), expected) }",
    )
    .unwrap();
    assert_eq!(module.cases.len(), 3);
    assert_eq!(
        bindings(&module.cases[0]),
        vec!["let input: u16 = 0;", "let expected: u32 = 5;"]
    );
    assert_eq!(
        bindings(&module.cases[1]),
        vec!["let input: u16 = 1;", "let expected: u32 = 6;"]
    );
    assert_eq!(
        bindings(&module.cases[2]),
        vec!["let input: u16 = 2;", "let expected: u32 = 7;"]
    );
}

#[test]
fn the_bindings_follow_the_parameters_not_the_declarations() {
    let declared = expand("a = { 1, 2 }, b = { 'x', 'y' }", "fn f(a: u8, b: char) {}").unwrap();
    let swapped = expand("b = { 'x', 'y' }, a = { 1, 2 }", "fn f(a: u8, b: char) {}").unwrap();
    assert_eq!(declared.cases.len(), swapped.cases.len());
    for (one, other) in declared.cases.iter().zip(swapped.cases.iter()) {
        assert_eq!(bindings(one), bindings(other));
    }
    assert_eq!(bindings(&swapped.cases[1]), vec!["let a: u8 = 2;", "let b: char = 'y';"]);
}

#[test]
fn lists_of_different_lengths_are_refused() {
    let error = expand("v = { \"a\", \"b\", \"c\" }, w = { 1, 2 }", "fn f(v: &str, w: i32) {}")
        .unwrap_err();
    match &error {
        ExpansionError::UnequalLength { id, expected, found, lengths } => {
            assert_eq!(id.to_string(), "w");
            assert_eq!((*expected, *found), (3, 2));
            let listed: Vec<(String, usize)> =
                lengths.iter().map(|l| (l.name.clone(), l.length)).collect();
            assert_eq!(listed, vec![("v".to_string(), 3), ("w".to_string(), 2)]);
        }
        other => panic!("{:?}", other),
    }
    assert_eq!(
        error.message(),
        "[parameterized-macro] error: inconsistent argument list length for 'w': expected 3, found 2; all inputs (v: 3, w: 2) should have equal length"
    );
}

#[test]
fn the_shorter_list_may_stand_first() {
    let error = expand("w = { 1, 2 }, v = { \"a\", \"b\", \"c\" }", "fn f(v: &str, w: i32) {}")
        .unwrap_err();
    match error {
        ExpansionError::UnequalLength { id, expected, found, lengths } => {
            assert_eq!(id.to_string(), "v");
            assert_eq!((expected, found), (2, 3));
            let listed: Vec<(String, usize)> =
                lengths.iter().map(|l| (l.name.clone(), l.length)).collect();
            assert_eq!(listed, vec![("v".to_string(), 3), ("w".to_string(), 2)]);
        }
        other => panic!("{:?}", other),
    }
}

#[test]
fn the_lengths_are_listed_by_name() {
    let error = expand(
        "zzz = { \"a\", \"b\" }, aaa = { 1, 2, 3 }, mm = { 1, 2 }, Mm = { 1 }, m = { 1, 2 }",
        "fn my_test(zzz: &str, aaa: i32, mm: u8, Mm: u8, m: u8) {}",
    )
    .unwrap_err();
    match error {
        ExpansionError::UnequalLength { id, expected, found, lengths } => {
            assert_eq!(id.to_string(), "aaa");
            assert_eq!((expected, found), (2, 3));
            let listed: Vec<(String, usize)> =
                lengths.iter().map(|l| (l.name.clone(), l.length)).collect();
            assert_eq!(
                listed,
                vec![
                    ("Mm".to_string(), 1),
                    ("aaa".to_string(), 3),
                    ("m".to_string(), 2),
                    ("mm".to_string(), 2),
                    ("zzz".to_string(), 2)
                ]
            );
        }
        other => panic!("{:?}", other),
    }
}

#[test]
fn an_identifier_declared_twice_is_refused() {
    let error = expand("v = { 1 }, w = { 2 }, v = { 3 }", "fn f(v: i32, w: i32) {}").unwrap_err();
    match &error {
        ExpansionError::DuplicateIdentifier { id } => assert_eq!(id.to_string(), "v"),
        other => panic!("{:?}", other),
    }
    assert_eq!(
        error.message(),
        "[parameterized-macro] error: duplicate identifier 'v' found; please use unique parameter names"
    );
}

#[test]
fn a_repeated_identifier_counts_before_the_lengths() {
    let error = expand("v = { 1 }, w = { 2, 3 }, w = { 4 }", "fn f(v: i32, w: i32) {}").unwrap_err();
    assert!(matches!(error, ExpansionError::DuplicateIdentifier { .. }));
}

#[test]
fn an_identifier_that_names_no_parameter_is_refused() {
    let error = expand("v = { 1 }, x = { 2 }", "fn f(v: i32, w: i32) {}").unwrap_err();
    match &error {
        ExpansionError::UnknownParameter { id } => assert_eq!(id.to_string(), "x"),
        other => panic!("{:?}", other),
    }
    assert_eq!(
        error.message(),
        "[parameterized-macro] error: no matching parameter or values found for 'x'"
    );
}

#[test]
fn a_parameter_without_values_is_refused() {
    let error = expand("v = { 1 }", "fn f(v: i32, w: i32) {}").unwrap_err();
    match error {
        ExpansionError::UnknownParameter { id } => assert_eq!(id.to_string(), "w"),
        other => panic!("{:?}", other),
    }
    let error = expand("", "fn f(only: i32) {}").unwrap_err();
    match error {
        ExpansionError::UnknownParameter { id } => assert_eq!(id.to_string(), "only"),
        other => panic!("{:?}", other),
    }
}

#[test]
fn names_are_matched_letter_by_letter() {
    let error = expand("Value = { 1 }", "fn f(value: i32) {}").unwrap_err();
    match error {
        ExpansionError::UnknownParameter { id } => assert_eq!(id.to_string(), "Value"),
        other => panic!("{:?}", other),
    }
}

#[test]
fn a_receiver_is_refused_before_anything_is_made() {
    let error = expand("v = { 1 }", "fn f(&self, v: i32) {}").unwrap_err();
    assert!(matches!(error, ExpansionError::MalformedParameter { position: 0 }));
    assert_eq!(
        error.message(),
        "[parameterized-macro] error: the function argument at position 0 should be a name with a type"
    );
    let error = expand("v = { 1 }, v = { 2, 3 }", "fn f(self) {}").unwrap_err();
    assert!(matches!(error, ExpansionError::MalformedParameter { position: 0 }));
}

#[test]
fn the_attribute_is_read_before_the_function() {
    let error = expand("v = [ 1 ]", "struct NotAFunction;").unwrap_err();
    match &error {
        ExpansionError::Syntax(syntax) => assert_eq!(syntax.at, 2),
        other => panic!("{:?}", other),
    }
    assert_eq!(
        error.message(),
        "[parameterized-macro] error: expected a list in braces at token 2"
    );
    let error = expand("v = { 1 }", "struct NotAFunction;").unwrap_err();
    assert_eq!(error.message(), "[parameterized-macro] error: expected a function at token 0");
}

#[test]
fn no_values_make_no_cases() {
    let module = expand("v = { }", "fn f(v: i32) {}").unwrap();
    assert_eq!(module.cases.len(), 0);
    let module = expand("", "pub fn f() {}").unwrap();
    assert_eq!(module.cases.len(), 0);
    assert_eq!(module.name.to_string(), "f");
    assert_eq!(written(&module.vis), "pub");
}

#[test]
fn the_cases_have_the_visibility_of_the_function() {
    let module = expand("v = { 1, 2 }", "pub(crate) fn f(v: i32) {}").unwrap();
    assert_eq!(written(&module.vis), "pub (crate)");
    for case in &module.cases {
        assert_eq!(written(&case.vis), "pub (crate)");
    }
}

#[test]
fn the_attributes_of_the_function_go_over_to_every_case() {
    let module = expand(
        "input = { None, None, None }",
        "#[should_panic] #[ignore = \"slow\"] fn numbers(input: Option<()>) { input.unwrap() }",
    )
    .unwrap();
    assert_eq!(module.cases.len(), 3);
    for case in &module.cases {
        assert_eq!(
            attributes(case),
            vec!["#[test]", "# [should_panic]", "# [ignore = \"slow\"]"]
        );
    }
}

#[test]
fn a_test_mark_below_the_attribute_is_not_copied() {
    let module = expand("v = { 1, 2 }", "#[test] fn f(v: i32) {}").unwrap();
    for case in &module.cases {
        assert_eq!(attributes(case), vec!["#[test]"]);
    }
    let module = expand("v = { 1 }", "#[should_panic] #[test] #[ignore] fn f(v: i32) {}").unwrap();
    assert_eq!(attributes(&module.cases[0]), vec!["#[test]", "# [should_panic]", "# [ignore]"]);
}

#[test]
fn only_the_last_test_mark_is_left_out() {
    let module = expand("v = { 1 }", "#[test] #[allow(unused)] #[test] fn f(v: i32) {}").unwrap();
    assert_eq!(attributes(&module.cases[0]), vec!["#[test]", "# [test]", "# [allow (unused)]"]);
}

#[test]
fn only_the_plain_word_marks_a_test() {
    let module = expand(
        "v = { 1 }",
        "#[tokio::test] #[test_case] #[cfg(test)] fn f(v: i32) {}",
    )
    .unwrap();
    assert_eq!(
        attributes(&module.cases[0]),
        vec!["#[test]", "# [tokio :: test]", "# [test_case]", "# [cfg (test)]"]
    );
}

#[test]
fn removes_the_last_test_attribute() {
    let fun = function("#[test] #[a] #[test] #[b] fn f() {}");
    let mut attrs = fun.attrs().clone();
    remove_test_attribute(&mut attrs);
    let left: Vec<String> = attrs.iter().map(written).collect();
    assert_eq!(left, vec!["# [test]", "# [a]", "# [b]"]);
    remove_test_attribute(&mut attrs);
    let left: Vec<String> = attrs.iter().map(written).collect();
    assert_eq!(left, vec!["# [a]", "# [b]"]);
    remove_test_attribute(&mut attrs);
    assert_eq!(attrs.len(), 2);
    let mut none: Vec<syn::Attribute> = Vec::new();
    remove_test_attribute(&mut none);
    assert!(none.is_empty());
}

#[test]
fn the_counter_numbers_the_cases_of_all_expansions() {
    let mut counter = CaseCounter::new();
    let first = impl_value_source(&lists("v = { 1, 2, 3 }"), &function("fn f(v: u8) {}"), &mut counter)
        .unwrap();
    let second =
        impl_value_source(&lists("w = { 1, 2 }"), &function("fn g(w: u8) {}"), &mut counter).unwrap();
    assert_eq!(names(&first), vec!["case_0", "case_1", "case_2"]);
    assert_eq!(names(&second), vec!["case_3", "case_4"]);
}

#[test]
fn a_refused_expansion_takes_no_numbers() {
    let mut counter = CaseCounter::new();
    assert!(impl_value_source(
        &lists("v = { 1, 2, 3 }, w = { 1 }"),
        &function("fn f(v: u8, w: u8) {}"),
        &mut counter
    )
    .is_err());
    assert!(impl_value_source(&lists("v = { 1, 2, 3 }"), &function("fn f(w: u8) {}"), &mut counter)
        .is_err());
    let module =
        impl_value_source(&lists("v = { 1, 2 }"), &function("fn f(v: u8) {}"), &mut counter).unwrap();
    assert_eq!(names(&module), vec!["case_0", "case_1"]);
}

#[test]
fn the_numbers_are_written_in_decimal() {
    let mut counter = CaseCounter::new();
    assert_eq!(counter.reserve(9), Some(0));
    let module = impl_value_source(&lists("v = { 1, 2, 3 }"), &function("fn f(v: u8) {}"), &mut counter)
        .unwrap();
    assert_eq!(names(&module), vec!["case_9", "case_10", "case_11"]);
    assert_eq!(case_ident(0).to_string(), "case_0");
    assert_eq!(case_ident(1234567890).to_string(), "case_1234567890");
    assert_eq!(case_ident(usize::MAX).to_string(), format!("case_{}", usize::MAX));
}

#[test]
fn a_full_counter_refuses_the_expansion() {
    let mut counter = CaseCounter::new();
    assert_eq!(counter.reserve(usize::MAX - 1), Some(0));
    let error = impl_value_source(&lists("v = { 1, 2 }"), &function("fn f(v: u8) {}"), &mut counter)
        .unwrap_err();
    assert!(matches!(error, ExpansionError::CaseIdsExhausted));
    assert_eq!(
        error.message(),
        "[parameterized-macro] error: no numbers are left for the generated cases"
    );
    let module =
        impl_value_source(&lists("v = { 1 }"), &function("fn f(v: u8) {}"), &mut counter).unwrap();
    assert_eq!(names(&module), vec![format!("case_{}", usize::MAX - 1)]);
    assert_eq!(counter.reserve(1), None);
    assert_eq!(counter.reserve(0), Some(usize::MAX));
}

#[test]
fn the_mode_selects_the_expansion() {
    let mut counter = CaseCounter::new();
    let declared = lists("v = { 1, 2 }");
    let fun = function("fn f(v: u8) {}");
    let module = impl_with_feature(ExpansionMode::ValueSource, &declared, &fun, &mut counter).unwrap();
    assert_eq!(names(&module), vec!["case_0", "case_1"]);
    let error =
        impl_with_feature(ExpansionMode::CaseByCase, &declared, &fun, &mut counter).unwrap_err();
    assert!(matches!(error, ExpansionError::ArityMismatch { .. }));
}

#[test]
fn indexes_the_identifiers_in_the_order_of_their_declaration() {
    let index = index_identifiers(&lists("b = { 1 }, a = { 2 }, c = { 3 }")).unwrap();
    let held: Vec<(String, usize)> = index.iter().map(|(k, v)| (k.clone(), *v)).collect();
    assert_eq!(
        held,
        vec![("b".to_string(), 0), ("a".to_string(), 1), ("c".to_string(), 2)]
    );
    match index_identifiers(&lists("b = { 1 }, a = { 2 }, a = { 3 }, b = { 4 }")) {
        Err(ExpansionError::DuplicateIdentifier { id }) => assert_eq!(id.to_string(), "a"),
        other => panic!("{:?}", other),
    }
}

#[test]
fn counts_the_cases() {
    assert_eq!(check_all_input_lengths(&lists("")).unwrap(), 0);
    assert_eq!(check_all_input_lengths(&lists("v = { }")).unwrap(), 0);
    assert_eq!(check_all_input_lengths(&lists("v = { 1, 2 }, w = { 3, 4 }")).unwrap(), 2);
    assert!(check_all_input_lengths(&lists("v = { }, w = { 3 }")).is_err());
}

#[test]
fn sorts_the_lengths_by_name() {
    let sorted = sorted_lengths(&lists("b = { 1 }, ab = { 1, 2 }, a = { }, B = { 1, 2, 3 }, a = { 1 }"));
    let listed: Vec<(String, usize)> = sorted.iter().map(|l| (l.name.clone(), l.length)).collect();
    assert_eq!(
        listed,
        vec![
            ("B".to_string(), 3),
            ("a".to_string(), 0),
            ("a".to_string(), 1),
            ("ab".to_string(), 2),
            ("b".to_string(), 1)
        ]
    );
}

#[test]
fn knows_the_identifiers_that_name_a_parameter() {
    let fun = function("fn f(a: u8, b: u8) {}");
    assert!(check_identifiers_known(&lists("b = { 1 }, a = { 2 }"), fun.parameters()).is_ok());
    assert!(check_identifiers_known(&lists("b = { 1 }"), fun.parameters()).is_ok());
    match check_identifiers_known(&lists("b = { 1 }, c = { 2 }, d = { 3 }"), fun.parameters()) {
        Err(ExpansionError::UnknownParameter { id }) => assert_eq!(id.to_string(), "c"),
        other => panic!("{:?}", other),
    }
}

#[test]
fn makes_the_module_for_the_cases_of_a_function() {
    let fun = function("pub(super) fn f() {}");
    let module = module_of(fun.name(), fun.vis(), Vec::new());
    assert_eq!(module.attrs, vec![ModuleAttribute::TestsOnly]);
    assert_eq!(written(&module.vis), "pub (super)");
    assert_eq!(module.name.to_string(), "f");
    assert_eq!(module.imports, vec![Import::Surrounding]);
    assert!(module.cases.is_empty());
}

#[test]
fn binds_a_parameter_to_an_expression() {
    let fun = function("fn f(fruit: Fruit) {}");
    let expr: syn::Expr = syn::parse_str("Fruit::Bramble(BrambleFruit::Blackberry)").unwrap();
    let binding = create_binding(&fun.parameters()[0], &expr);
    assert_eq!(binding.ident.to_string(), "fruit");
    assert_eq!(written(&binding.ty), "Fruit");
    assert_eq!(binding.expr, expr);
}
