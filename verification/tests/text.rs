use puid::text::{push_decimal, snake_case_name};

fn decimal(n: usize) -> String {
    let mut out = String::new();
    push_decimal(&mut out, n);
    out
}

#[test]
fn snake_case_of_a_camel_case_name() {
    assert_eq!(snake_case_name("TestId"), "test_id");
    assert_eq!(snake_case_name("UserId"), "user_id");
    assert_eq!(snake_case_name("Order"), "order");
}

#[test]
fn snake_case_splits_every_upper_case_letter() {
    assert_eq!(snake_case_name("UserID"), "user_i_d");
    assert_eq!(snake_case_name("ABC"), "a_b_c");
    assert_eq!(snake_case_name("HTTPRequest2"), "h_t_t_p_request2");
}

#[test]
fn snake_case_keeps_what_is_not_upper_case() {
    assert_eq!(snake_case_name("already_snake"), "already_snake");
    assert_eq!(snake_case_name("x9"), "x9");
    assert_eq!(snake_case_name("a__b"), "a__b");
    assert_eq!(snake_case_name("trailing_"), "trailing_");
}

#[test]
fn snake_case_drops_leading_underscores() {
    assert_eq!(snake_case_name("_Foo"), "foo");
    assert_eq!(snake_case_name("__foo"), "foo");
    assert_eq!(snake_case_name("_"), "");
    assert_eq!(snake_case_name("___"), "");
    assert_eq!(snake_case_name("_A_B"), "a__b");
}

#[test]
fn snake_case_of_the_empty_name() {
    assert_eq!(snake_case_name(""), "");
}

#[test]
fn snake_case_leaves_other_scripts_alone() {
    assert_eq!(snake_case_name("\u{c9}t\u{e9}"), "\u{c9}t\u{e9}");
    assert_eq!(snake_case_name("Gr\u{f6}\u{df}eId"), "gr\u{f6}\u{df}e_id");
}

#[test]
fn decimal_numerals() {
    assert_eq!(decimal(0), "0");
    assert_eq!(decimal(7), "7");
    assert_eq!(decimal(10), "10");
    assert_eq!(decimal(27), "27");
    assert_eq!(decimal(1009), "1009");
    assert_eq!(decimal(usize::MAX), usize::MAX.to_string());
}

#[test]
fn decimal_is_appended() {
    let mut out = String::from("n = ");
    push_decimal(&mut out, 42);
    assert_eq!(out, "n = 42");
}
