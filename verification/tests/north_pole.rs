use parameterized::north_pole::{
    entered_basement_at_instruction, go_to_apartment_level, NorthPoleError,
};

#[test]
fn a_regular_test_for_comparison() {
    let level = go_to_apartment_level("()");
    assert_eq!(level.unwrap(), 0isize);
}

#[test]
fn apartment_levels() {
    let cases: Vec<(&str, isize)> = vec![
        ("(())", 0),
        ("()()", 0),
        ("(((", 3),
        ("(()(()(", 3),
        ("))(((((", 3),
        ("())", -1),
        ("))(", -1),
        (")))", -3),
        (")())())", -3),
        ("", 0),
    ];
    for (input, expected_level) in cases {
        assert_eq!(go_to_apartment_level(input).unwrap(), expected_level);
    }
}

#[test]
fn apartment_level_invalid_token() {
    let cases: Vec<(&str, char)> = vec![
        (" ", ' '),
        ("()()( )()()", ' '),
        ("\t", '\t'),
        ("()()()\0", '\0'),
        ("⬆", '⬆'),
    ];
    for (input, expected) in cases {
        assert_eq!(
            go_to_apartment_level(input).unwrap_err(),
            NorthPoleError::InvalidInstruction(expected)
        );
    }
}

#[test]
fn apartment_level_reports_the_first_invalid_token() {
    assert_eq!(
        go_to_apartment_level("(a)b").unwrap_err(),
        NorthPoleError::InvalidInstruction('a')
    );
}

#[test]
fn entered_basement() {
    let cases: Vec<(&str, usize)> =
        vec![(")", 1), ("())", 3), ("((())))", 7), (")()", 1), ("()())", 5)];
    for (input, first) in cases {
        assert_eq!(entered_basement_at_instruction(input).unwrap(), first);
    }
}

#[test]
fn never_entered_basement() {
    for input in vec!["(", "(())", ""] {
        assert!(entered_basement_at_instruction(input).is_none());
    }
}

#[test]
fn an_invalid_token_ends_the_walk_before_the_basement() {
    assert!(entered_basement_at_instruction("()x)").is_none());
    assert_eq!(entered_basement_at_instruction(")x"), Some(1));
}
