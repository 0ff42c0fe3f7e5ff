use chat_coordinator::text::{join, last_char, push_decimal, to_decimal};

#[test]
fn decimal_of_small_and_large_numbers() {
    assert_eq!(to_decimal(0), "0");
    assert_eq!(to_decimal(7), "7");
    assert_eq!(to_decimal(9), "9");
    assert_eq!(to_decimal(10), "10");
    assert_eq!(to_decimal(101), "101");
    assert_eq!(to_decimal(1234567890), "1234567890");
    assert_eq!(to_decimal(u64::MAX as u128), "18446744073709551615");
    assert_eq!(
        to_decimal(u128::MAX),
        "340282366920938463463374607431768211455"
    );
}

#[test]
fn decimal_agrees_with_the_standard_formatting() {
    let mut n: u128 = 1;
    for _ in 0..60 {
        assert_eq!(to_decimal(n), n.to_string());
        assert_eq!(to_decimal(n - 1), (n - 1).to_string());
        n = n * 3 + 1;
    }
}

#[test]
fn push_decimal_appends() {
    let mut text = "update_message#".to_string();
    push_decimal(&mut text, 42);
    assert_eq!(text, "update_message#42");
}

#[test]
fn join_keeps_order_and_adds_nothing() {
    assert_eq!(join(&vec![]), "");
    assert_eq!(join(&vec!["Hi".to_string()]), "Hi");
    assert_eq!(
        join(&vec!["Hi".to_string(), " there".to_string(), ".".to_string()]),
        "Hi there."
    );
    assert_eq!(join(&vec!["".to_string(), "a".to_string(), "".to_string()]), "a");
}

#[test]
fn last_char_counts_characters_not_bytes() {
    assert_eq!(last_char(""), None);
    assert_eq!(last_char("a"), Some('a'));
    assert_eq!(last_char("done."), Some('.'));
    assert_eq!(last_char("caf\u{e9}"), Some('\u{e9}'));
    assert_eq!(last_char("ok \u{1f600}"), Some('\u{1f600}'));
}
