use memory_mcp::order::{chars_of, compare_key, compare_text, stable_order, Comparison, SortKeyPart};

fn text(s: &str) -> SortKeyPart {
    SortKeyPart::Text(s.chars().collect())
}

#[test]
fn texts_compare_by_code_points_then_length() {
    assert!(compare_text(&chars_of("abc"), &chars_of("abd")) == Comparison::Less);
    assert!(compare_text(&chars_of("ab"), &chars_of("abc")) == Comparison::Less);
    assert!(compare_text(&chars_of("b"), &chars_of("abc")) == Comparison::Greater);
    assert!(compare_text(&chars_of("Z"), &chars_of("a")) == Comparison::Less);
    assert!(compare_text(&chars_of("same"), &chars_of("same")) == Comparison::Equal);
}

#[test]
fn keys_compare_part_by_part() {
    let a = vec![SortKeyPart::Num(1), text("b")];
    let b = vec![SortKeyPart::Num(1), text("c")];
    let c = vec![SortKeyPart::Num(0), text("z")];
    assert!(compare_key(&a, &b) == Comparison::Less);
    assert!(compare_key(&c, &a) == Comparison::Less);
    assert!(compare_key(&a, &a) == Comparison::Equal);
}

#[test]
fn stable_order_sorts_and_keeps_ties_in_place() {
    let keys = vec![
        vec![SortKeyPart::Num(2)],
        vec![SortKeyPart::Num(1)],
        vec![SortKeyPart::Num(2)],
        vec![SortKeyPart::Num(0)],
        vec![SortKeyPart::Num(1)],
    ];
    assert_eq!(stable_order(&keys), vec![3, 1, 4, 0, 2]);
    assert_eq!(stable_order(&Vec::new()), Vec::<usize>::new());
}
