use backend::text::push_decimal;

fn decimal(x: i32) -> String {
    let mut s = String::from("n=");
    push_decimal(&mut s, x);
    s
}

#[test]
fn decimal_text_of_integers() {
    assert_eq!(decimal(0), "n=0");
    assert_eq!(decimal(7), "n=7");
    assert_eq!(decimal(8765), "n=8765");
    assert_eq!(decimal(-42), "n=-42");
    assert_eq!(decimal(i32::MAX), "n=2147483647");
    assert_eq!(decimal(i32::MIN), "n=-2147483648");
}
