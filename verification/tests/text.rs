use parameterized::text::{chars_of, decimal, name_precedes};

fn precedes(a: &str, b: &str) -> bool {
    name_precedes(&chars_of(a), &chars_of(b))
}

#[test]
fn writes_numbers_in_decimal() {
    assert_eq!(decimal(0), "0");
    assert_eq!(decimal(7), "7");
    assert_eq!(decimal(10), "10");
    assert_eq!(decimal(109), "109");
    assert_eq!(decimal(9876543210), "9876543210");
    assert_eq!(decimal(usize::MAX), usize::MAX.to_string());
}

#[test]
fn takes_a_string_letter_by_letter() {
    assert_eq!(chars_of(""), Vec::<char>::new());
    assert_eq!(chars_of("a⬆b"), vec!['a', '⬆', 'b']);
}

#[test]
fn orders_names_as_a_dictionary_does() {
    assert!(precedes("a", "b"));
    assert!(!precedes("b", "a"));
    assert!(precedes("a", "ab"));
    assert!(!precedes("ab", "a"));
    assert!(precedes("", "a"));
    assert!(!precedes("", ""));
    assert!(!precedes("same", "same"));
    assert!(precedes("Z", "a"));
    assert!(precedes("abc", "abd"));
    assert!(precedes("z", "é"));
}

#[test]
fn orders_names_as_strings_are_ordered() {
    let names = ["", "a", "A", "ab", "b", "_x", "x_", "x1", "x10", "x2", "é", "zz", "⬆"];
    for a in names {
        for b in names {
            assert_eq!(precedes(a, b), a < b, "{:?} and {:?}", a, b);
        }
    }
}
