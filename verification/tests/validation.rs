use distributed_neural_network::validation::{
    format_verdict, is_ipv4_address, uuid_verdict, ValidationError, Validator,
};

#[test]
fn test_validate_uuid() {
    let valid_uuid = "550e8400-e29b-41d4-a716-446655440000";
    let invalid_uuid = "invalid-uuid";
    assert!(Validator::validate_uuid(valid_uuid).is_ok());
    assert!(Validator::validate_uuid(invalid_uuid).is_err());
}

#[test]
fn test_validate_ip_address() {
    let valid_ip = "192.168.1.1";
    let invalid_ip = "999.999.999.999";
    assert!(Validator::validate_ip_address(valid_ip).is_ok());
    assert!(Validator::validate_ip_address(invalid_ip).is_err());
}

#[test]
fn test_validate_message_format() {
    let message = "Hello123";
    let valid_pattern = r"^[a-zA-Z0-9]+$";
    let invalid_pattern = r"^[a-z]+$";
    assert!(Validator::validate_message_format(message, valid_pattern).is_ok());
    assert!(Validator::validate_message_format(message, invalid_pattern).is_err());
}

#[test]
fn uuid_is_returned_as_its_128_bit_value() {
    assert_eq!(
        Validator::validate_uuid("550e8400-e29b-41d4-a716-446655440000"),
        Ok(0x550e8400_e29b_41d4_a716_446655440000)
    );
    assert_eq!(
        Validator::validate_uuid("a1a2a3a4b1b2c1c2d1d2d3d4d5d6d7d8"),
        Ok(0xa1a2a3a4b1b2c1c2d1d2d3d4d5d6d7d8)
    );
    assert_eq!(Validator::validate_uuid("invalid-uuid"), Err(ValidationError::InvalidUuid));
    assert_eq!(Validator::validate_uuid(""), Err(ValidationError::InvalidUuid));
}

#[test]
fn uuid_verdict_maps_the_outside_result() {
    let parsed = uuid::Uuid::parse_str("not a uuid").map(|u| u.as_u128());
    assert_eq!(uuid_verdict(parsed), Err(ValidationError::InvalidUuid));
    assert_eq!(uuid_verdict(Ok(17)), Ok(17));
}

#[test]
fn format_verdict_tells_mismatch_from_bad_pattern() {
    assert_eq!(format_verdict(Ok(true)), Ok(()));
    assert_eq!(format_verdict(Ok(false)), Err(ValidationError::InvalidMessageFormat));
    let bad = regex::Regex::new("(").map(|_| true);
    assert_eq!(format_verdict(bad), Err(ValidationError::InvalidPattern));
}

#[test]
fn message_format_errors() {
    assert_eq!(
        Validator::validate_message_format("Hello123", r"^[a-z]+$"),
        Err(ValidationError::InvalidMessageFormat)
    );
    assert_eq!(
        Validator::validate_message_format("Hello123", r"foo(bar"),
        Err(ValidationError::InvalidPattern)
    );
    // The pattern is searched for anywhere in the message.
    assert_eq!(Validator::validate_message_format("say Hello123!", r"[0-9]+"), Ok(()));
    // Pattern and message are not interchanged.
    assert_eq!(
        Validator::validate_message_format(r"[0-9]+", "123"),
        Err(ValidationError::InvalidMessageFormat)
    );
}

#[test]
fn ipv4_grammar_edge_cases() {
    for good in [
        "0.0.0.0",
        "255.255.255.255",
        "1.2.3.4",
        "01.002.3.04",
        "000.000.000.000",
        "199.249.250.9",
        "127.0.0.1",
    ] {
        assert!(is_ipv4_address(good.as_bytes()), "{}", good);
        assert_eq!(Validator::validate_ip_address(good), Ok(()));
    }
    for bad in [
        "",
        "1",
        "1.2.3",
        "1.2.3.4.5",
        "256.1.1.1",
        "1.1.1.256",
        "1.1.1.300",
        "999.999.999.999",
        "1..2.3",
        ".1.2.3",
        "1.2.3.",
        "1.2.3.4.",
        "1.2.3.4\n",
        " 1.2.3.4",
        "1.2.3.4 ",
        "1.2.3.0004",
        "1.2.3.-4",
        "1.2.3.+4",
        "a.b.c.d",
        "1,2,3,4",
        "１.2.3.4",
        "1.2.3.4é",
        "....",
        "...",
    ] {
        assert!(!is_ipv4_address(bad.as_bytes()), "{:?}", bad);
        assert_eq!(Validator::validate_ip_address(bad), Err(ValidationError::InvalidIpAddress));
    }
}

#[test]
fn ipv4_grammar_agrees_with_the_same_grammar_as_a_pattern() {
    let pattern = regex::Regex::new(
        r"^((25[0-5]|2[0-4][0-9]|[0-1]?[0-9][0-9]?)\.){3}(25[0-5]|2[0-4][0-9]|[0-1]?[0-9][0-9]?)$",
    )
    .unwrap();
    let parts = ["", "0", "7", "00", "09", "99", "000", "199", "200", "249", "250", "255", "256", "260", "300", "1234", "a", "-1", " 1"];
    for a in parts {
        for b in ["1", "256", "", "025"] {
            for tail in ["", ".", ".5", "\n", " "] {
                let text = format!("{}.{}.10.{}{}", a, b, a, tail);
                assert_eq!(is_ipv4_address(text.as_bytes()), pattern.is_match(&text), "{:?}", text);
            }
        }
    }
}
