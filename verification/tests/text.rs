use deflake::text::{chars_of, decimal_text, digit_char, push_decimal};

#[test]
fn chars_of_gives_the_characters_in_order() {
    assert_eq!(chars_of(""), Vec::<char>::new());
    assert_eq!(chars_of("a{}"), vec!['a', '{', '}']);
    assert_eq!(chars_of("é ü"), vec!['é', ' ', 'ü']);
}

#[test]
fn digit_char_gives_the_ten_digits() {
    let digits: Vec<char> = (0..10u8).map(digit_char).collect();
    assert_eq!(digits, vec!['0', '1', '2', '3', '4', '5', '6', '7', '8', '9']);
}

#[test]
fn decimal_text_of_small_numbers() {
    assert_eq!(decimal_text(0), "0");
    assert_eq!(decimal_text(9), "9");
    assert_eq!(decimal_text(10), "10");
    assert_eq!(decimal_text(33), "33");
    assert_eq!(decimal_text(100), "100");
    assert_eq!(decimal_text(1001), "1001");
}

#[test]
fn decimal_text_agrees_with_to_string() {
    let mut n: u128 = 1;
    for _ in 0..39 {
        assert_eq!(decimal_text(n), n.to_string());
        assert_eq!(decimal_text(n - 1), (n - 1).to_string());
        assert_eq!(decimal_text(n + 7), (n + 7).to_string());
        n = n.saturating_mul(10);
    }
    assert_eq!(decimal_text(u128::MAX), u128::MAX.to_string());
    assert_eq!(decimal_text(u64::MAX as u128), u64::MAX.to_string());
}

#[test]
fn push_decimal_writes_behind_what_is_there() {
    let mut text = String::from("in ");
    push_decimal(&mut text, 120);
    assert_eq!(text, "in 120");
    push_decimal(&mut text, 0);
    assert_eq!(text, "in 1200");
}
