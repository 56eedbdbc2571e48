use cardgen::card_generator::CreditCardGenerator;
use cardgen::validator::validate_card_number;

#[test]
fn test_luhn_checksum() {
    assert_eq!(CreditCardGenerator::luhn_checksum("4111111111111111"), 0);
    assert_eq!(CreditCardGenerator::luhn_checksum("5555555555554444"), 0);
    assert!(CreditCardGenerator::is_luhn_valid("4111111111111111"));
}

#[test]
fn luhn_checksum_values() {
    assert_eq!(CreditCardGenerator::luhn_checksum("4111111111111112"), 1);
    assert_eq!(CreditCardGenerator::luhn_checksum("79927398713"), 0);
    assert_eq!(CreditCardGenerator::luhn_checksum("79927398710"), 7);
    assert_eq!(CreditCardGenerator::luhn_checksum("4111-1111 1111-1111"), 0);
    assert_eq!(CreditCardGenerator::luhn_checksum(""), 0);
}

#[test]
fn check_digit_completes_number() {
    assert_eq!(CreditCardGenerator::check_digit_for("7992739871"), 3);
    assert_eq!(CreditCardGenerator::check_digit_for("411111111111111"), 1);
    assert!(CreditCardGenerator::is_luhn_valid("79927398713"));
    for prefix in ["", "0", "12345", "378282246310"] {
        let d = CreditCardGenerator::check_digit_for(prefix);
        assert!(CreditCardGenerator::is_luhn_valid(&format!("{}{}", prefix, d)));
    }
}

#[test]
fn test_validate_visa() {
    let result = validate_card_number("4111111111111111");
    assert!(result.valid);
    assert!(result.luhn_valid);
    assert_eq!(result.network, Some("Visa".to_string()));
}

#[test]
fn test_validate_mastercard() {
    let result = validate_card_number("5555555555554444");
    assert!(result.valid);
    assert!(result.luhn_valid);
    assert_eq!(result.network, Some("Mastercard".to_string()));
}

#[test]
fn test_validate_invalid() {
    let result = validate_card_number("1234567890123456");
    assert!(!result.valid);
}

#[test]
fn test_validate_invalid_length() {
    let result = validate_card_number("123");
    assert!(!result.valid);
    assert_eq!(result.reason, "卡号长度无效");
}

#[test]
fn validate_short_input_reports_length() {
    let result = validate_card_number("123");
    assert!(!result.luhn_valid);
    assert_eq!(result.length, 3);
    assert_eq!(result.network, None);
    let empty = validate_card_number("abc-");
    assert_eq!(empty.length, 0);
    assert_eq!(empty.reason, "卡号长度无效");
    let long = validate_card_number("41111111111111111111");
    assert_eq!(long.length, 20);
    assert!(!long.valid);
}

#[test]
fn validate_reasons_in_order() {
    let luhn_fail = validate_card_number("4111111111111112");
    assert!(!luhn_fail.luhn_valid);
    assert_eq!(luhn_fail.network, Some("Visa".to_string()));
    assert_eq!(luhn_fail.reason, "Luhn 校验失败");
    let unknown = validate_card_number("1234567890123452");
    assert!(unknown.luhn_valid);
    assert_eq!(unknown.network, None);
    assert!(!unknown.valid);
    assert_eq!(unknown.reason, "无法识别卡网络");
    let ok = validate_card_number("4111 1111-1111 1111");
    assert!(ok.valid);
    assert_eq!(ok.length, 16);
    assert_eq!(ok.reason, "有效");
}
