use wtmm::currency::{cents_to_dollar_string, dollar_string_to_cents, CurrencyError};

#[test]
fn test_dollar_string_to_cents() {
    assert_eq!(dollar_string_to_cents("$0.1").unwrap(), 1);
    assert_eq!(dollar_string_to_cents("$0.01").unwrap(), 1);
    assert_eq!(dollar_string_to_cents("$0.10").unwrap(), 10);
    assert_eq!(dollar_string_to_cents("$1.00").unwrap(), 100);
}

#[test]
fn test_cents_to_dollar_string() {
    assert_eq!(cents_to_dollar_string(0), String::from("$0.00"));
    assert_eq!(cents_to_dollar_string(10), String::from("$0.10"));
    assert_eq!(cents_to_dollar_string(100), String::from("$1.00"));
    assert_eq!(cents_to_dollar_string(10000), String::from("$100.00"));
}

#[test]
fn test_round_trip_encoder_strings() {
    for cents in [0u64, 1, 5, 9, 10, 99, 100, 101, 12000, 123456789] {
        let encoded = cents_to_dollar_string(cents);
        assert_eq!(dollar_string_to_cents(&encoded).unwrap(), cents);
    }
}

#[test]
fn test_decoder_rejects_malformed_amounts() {
    for bad in ["", "1.00", "$", "$.", "$1", "$1.", "$.5", "$a.bc", "$1,00", "$1.2.3", "$+1.05"] {
        assert!(dollar_string_to_cents(bad).is_err());
    }
}

#[test]
fn test_decoder_error_carries_input() {
    match dollar_string_to_cents("oops") {
        Err(CurrencyError::InvalidAmountError(s)) => assert_eq!(s, "oops"),
        _ => panic!("expected an invalid amount error"),
    }
}

#[test]
fn test_decoder_short_cents_quirk() {
    // The decoder takes the cents part at face value: one digit means
    // single cents, which the encoder would have written with a leading 0.
    assert_eq!(dollar_string_to_cents("$1.5").unwrap(), 105);
    assert_eq!(cents_to_dollar_string(105), String::from("$1.05"));
}
