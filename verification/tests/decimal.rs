use whitespace::decimal::{digit_char, push_decimal};

fn numeral(n: usize) -> String {
    let mut text = String::new();
    push_decimal(&mut text, n);
    text
}

#[test]
fn digit_characters() {
    let digits: Vec<char> = (0..10).map(digit_char).collect();
    assert_eq!(vec!['0', '1', '2', '3', '4', '5', '6', '7', '8', '9'], digits);
}

#[test]
fn numerals() {
    assert_eq!("0", numeral(0));
    assert_eq!("7", numeral(7));
    assert_eq!("9", numeral(9));
    assert_eq!("10", numeral(10));
    assert_eq!("15", numeral(15));
    assert_eq!("100", numeral(100));
    assert_eq!("1009", numeral(1009));
    assert_eq!("4294967295", numeral(4294967295));
    assert_eq!(format!("{}", usize::MAX), numeral(usize::MAX));
}

#[test]
fn push_decimal_appends() {
    let mut text = String::from("at ");
    push_decimal(&mut text, 42);
    assert_eq!("at 42", text);
    push_decimal(&mut text, 0);
    assert_eq!("at 420", text);
}
