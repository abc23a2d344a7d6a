use rustedex_gen::error::GenError;
use rustedex_gen::text::i64_to_decimal;

#[test]
fn decimal_of_zero_and_small_numbers() {
    assert_eq!(i64_to_decimal(0), "0");
    assert_eq!(i64_to_decimal(7), "7");
    assert_eq!(i64_to_decimal(42), "42");
    assert_eq!(i64_to_decimal(1000), "1000");
}

#[test]
fn decimal_of_negative_numbers() {
    assert_eq!(i64_to_decimal(-1), "-1");
    assert_eq!(i64_to_decimal(-250), "-250");
}

#[test]
fn decimal_of_extreme_numbers() {
    assert_eq!(i64_to_decimal(i64::MAX), "9223372036854775807");
    assert_eq!(i64_to_decimal(i64::MIN), "-9223372036854775808");
}

#[test]
fn error_messages() {
    assert_eq!(GenError::MissingName { id: 25 }.message(), "No name for 25");
    assert_eq!(GenError::MissingSprite { id: 10001 }.message(), "No sprite for 10001");
    assert_eq!(GenError::MissingNames { id: 1 }.message(), "Missing some names for 1");
    assert_eq!(
        GenError::MissingTranslation { kind: "egg group".to_string(), id: 132 }.message(),
        "Can't find trad for egg group for 132"
    );
    assert_eq!(
        GenError::MissingExperience { id: 3 }.message(),
        "No experience at lvl 100 for 3"
    );
}
