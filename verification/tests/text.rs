use enorm::text::{all_distinct, decimal_string, find, join_strings, trim_matches};

fn strings(items: &[&str]) -> Vec<String> {
    items.iter().map(|item| item.to_string()).collect()
}

#[test]
fn join_puts_the_separator_between_neighbours() {
    assert_eq!(join_strings(&strings(&["a", "b", "c"]), ", "), "a, b, c");
    assert_eq!(join_strings(&strings(&["a"]), ", "), "a");
    assert_eq!(join_strings(&strings(&[]), ", "), "");
    assert_eq!(join_strings(&strings(&["", ""]), "-"), "-");
}

#[test]
fn decimal_has_no_leading_zero() {
    assert_eq!(decimal_string(0), "0");
    assert_eq!(decimal_string(7), "7");
    assert_eq!(decimal_string(10), "10");
    assert_eq!(decimal_string(1203), "1203");
    assert_eq!(decimal_string(u128::MAX), "340282366920938463463374607431768211455");
}

#[test]
fn trim_removes_the_runs_at_both_ends_only() {
    assert_eq!(trim_matches("\"people\"", '"'), "people");
    assert_eq!(trim_matches("people", '"'), "people");
    assert_eq!(trim_matches("\"\"a\"b\"", '"'), "a\"b");
    assert_eq!(trim_matches("\"\"\"", '"'), "");
    assert_eq!(trim_matches("", '"'), "");
    assert_eq!(trim_matches("\"é\"", '"'), "é");
}

#[test]
fn find_gives_the_first_index_or_the_length() {
    let names = strings(&["a", "b", "a"]);
    assert_eq!(find(&names, &"a".to_string()), 0);
    assert_eq!(find(&names, &"b".to_string()), 1);
    assert_eq!(find(&names, &"c".to_string()), 3);
}

#[test]
fn all_distinct_sees_a_repeated_name() {
    assert!(all_distinct(&strings(&["a", "b", "c"])));
    assert!(!all_distinct(&strings(&["a", "b", "a"])));
    assert!(all_distinct(&strings(&[])));
}
