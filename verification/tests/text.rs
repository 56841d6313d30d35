use profiler_toolkit::text::{decimal, fix_return, last_char, starts_with_char, trim};

#[test]
fn numbers_in_decimal() {
    assert_eq!(decimal(0), "0");
    assert_eq!(decimal(7), "7");
    assert_eq!(decimal(10), "10");
    assert_eq!(decimal(1234567890), "1234567890");
    assert_eq!(decimal(u32::MAX), "4294967295");
    for n in [9u32, 99, 100, 101, 4096, 65535, 1_000_000] {
        assert_eq!(decimal(n), n.to_string());
    }
}

#[test]
fn spaces_are_trimmed_at_both_ends() {
    assert_eq!(trim(" const* const "), "const* const");
    assert_eq!(trim("  a  b  "), "a  b");
    assert_eq!(trim("*"), "*");
    assert_eq!(trim(""), "");
    assert_eq!(trim("    "), "");
    assert_eq!(trim(" é "), "é");
    assert_eq!(trim("\ta "), "\ta");
}

#[test]
fn first_and_last_characters() {
    assert!(starts_with_char("const*", 'c'));
    assert!(!starts_with_char("*const", 'c'));
    assert!(!starts_with_char("", 'c'));
    assert_eq!(last_char("int*"), Some('*'));
    assert_eq!(last_char("naïve é"), Some('é'));
    assert_eq!(last_char(""), None);
}

#[test]
fn return_types_are_followed_by_a_space() {
    assert_eq!(fix_return("void".to_string()), "void ");
    assert_eq!(fix_return(String::new()), "");
}
