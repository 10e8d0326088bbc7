use rooc::number::Number;

#[test]
fn number_text_of_integer() {
    assert_eq!(Number::from_integer(42).to_string(), "42");
    assert_eq!(Number::from_integer(-7).to_string(), "-7");
    assert_eq!(Number::from_integer(0).to_string(), "0");
}

#[test]
fn number_text_of_decimal() {
    assert_eq!(Number::new(false, 25, 2).to_string(), "0.25");
    assert_eq!(Number::new(true, 1050, 2).to_string(), "-10.5");
    assert_eq!(Number::new(false, 300, 2).to_string(), "3");
    assert_eq!(Number::new(false, 5, 3).to_string(), "0.005");
}
