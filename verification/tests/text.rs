use input_capture::layout::{
    account_file_name_text, accounts_directory, base_directory, directory_name_text,
    keypair_file_name_text, keypairs_directory, transaction_file,
};
use input_capture::text::{boolean_text, byte_list_text, decimal_text, join};

#[test]
fn decimal_text_writes_plain_numerals() {
    assert_eq!(decimal_text(0), "0");
    assert_eq!(decimal_text(7), "7");
    assert_eq!(decimal_text(9), "9");
    assert_eq!(decimal_text(10), "10");
    assert_eq!(decimal_text(99), "99");
    assert_eq!(decimal_text(100), "100");
    assert_eq!(decimal_text(1234567890), "1234567890");
    assert_eq!(decimal_text(u64::MAX), "18446744073709551615");
}

#[test]
fn decimal_text_agrees_with_the_standard_library() {
    let mut n: u64 = 1;
    for _ in 0..64 {
        assert_eq!(decimal_text(n), n.to_string());
        assert_eq!(decimal_text(n - 1), (n - 1).to_string());
        n = n.wrapping_mul(3).wrapping_add(7);
    }
}

#[test]
fn boolean_text_is_true_or_false() {
    assert_eq!(boolean_text(true), "true");
    assert_eq!(boolean_text(false), "false");
}

#[test]
fn join_puts_the_separator_between_neighbours() {
    let none: Vec<String> = Vec::new();
    assert_eq!(join(&none, ", "), "");
    assert_eq!(join(&vec!["a".to_string()], ", "), "a");
    assert_eq!(join(&vec!["a".to_string(), "b".to_string()], "-"), "a-b");
    assert_eq!(
        join(&vec!["a".to_string(), "b".to_string(), "c".to_string()], ", "),
        "a, b, c"
    );
}

#[test]
fn join_keeps_empty_parts() {
    assert_eq!(join(&vec![String::new(), String::new()], ","), ",");
    assert_eq!(join(&vec!["x".to_string(), String::new(), "y".to_string()], "|"), "x||y");
}

#[test]
fn byte_list_text_is_a_bracketed_list() {
    assert_eq!(byte_list_text(&Vec::new()), "[]");
    assert_eq!(byte_list_text(&vec![0]), "[0]");
    assert_eq!(byte_list_text(&vec![1, 20, 255]), "[1, 20, 255]");
}

#[test]
fn capture_names_are_fixed() {
    assert_eq!(base_directory(), "debug_input");
    assert_eq!(keypairs_directory(), "keypairs");
    assert_eq!(accounts_directory(), "accounts");
    assert_eq!(transaction_file(), "transaction.json");
}

#[test]
fn numbered_names_carry_their_number() {
    assert_eq!(directory_name_text(1), "program_input_1");
    assert_eq!(directory_name_text(12), "program_input_12");
    assert_eq!(keypair_file_name_text(1), "keypair_1");
    assert_eq!(keypair_file_name_text(30), "keypair_30");
    assert_eq!(account_file_name_text(1), "account_1.json");
    assert_eq!(account_file_name_text(205), "account_205.json");
}
