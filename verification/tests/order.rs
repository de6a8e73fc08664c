use meroshare_tui::order::{holdings_order, sort_order};

fn strings(v: &[&str]) -> Vec<String> {
    v.iter().map(|s| s.to_string()).collect()
}

#[test]
fn sorts_by_key_stably() {
    assert_eq!(sort_order(&strings(&["b", "a", "c", "a"])), vec![1, 3, 0, 2]);
}

#[test]
fn sorts_empty_and_single() {
    assert_eq!(sort_order(&strings(&[])), Vec::<usize>::new());
    assert_eq!(sort_order(&strings(&["x"])), vec![0]);
}

#[test]
fn prefix_sorts_first() {
    assert_eq!(sort_order(&strings(&["abc", "ab", "a", ""])), vec![3, 2, 1, 0]);
}

#[test]
fn byte_order_puts_capitals_first() {
    assert_eq!(sort_order(&strings(&["b", "B", "a", "A"])), vec![3, 1, 2, 0]);
}

#[test]
fn holdings_are_ordered_case_insensitively() {
    let scripts = strings(&["NABIL", "adbl", "Nica", "ADBL"]);
    assert_eq!(holdings_order(&scripts), vec![1, 3, 0, 2]);
}

#[test]
fn unicode_keys_follow_code_points() {
    assert_eq!(sort_order(&strings(&["é", "z", "e"])), vec![2, 1, 0]);
}
