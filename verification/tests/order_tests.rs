use toki_core::order::{chars_lt, sort_by_key};

fn chars(s: &str) -> Vec<char> {
    s.chars().collect()
}

#[test]
fn lexicographic_order_compares_code_points() {
    assert!(chars_lt(&chars("a"), &chars("b")));
    assert!(chars_lt(&chars("ab"), &chars("abc")));
    assert!(!chars_lt(&chars("abc"), &chars("ab")));
    assert!(!chars_lt(&chars("same"), &chars("same")));
    assert!(chars_lt(&chars("Z"), &chars("a")));
    assert!(chars_lt(&chars(""), &chars("x")));
    assert!(chars_lt(&chars("é"), &chars("ê")));
}

#[test]
fn strings_sort_as_std_sorts_them() {
    let words = vec!["pear", "Apple", "apple", "", "pea", "äpfel", "peach"];
    let mut expected: Vec<String> = words.iter().map(|w| w.to_string()).collect();
    expected.sort();
    let sorted = sort_by_key(words.iter().map(|w| w.to_string()).collect());
    assert_eq!(sorted, expected);
}
