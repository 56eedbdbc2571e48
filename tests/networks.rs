use cardgen::networks::CardNetworkRegistry;

#[test]
fn test_detect_visa() {
    assert_eq!(CardNetworkRegistry::detect_network("4111111111111111"), Some("Visa".to_string()));
    assert_eq!(CardNetworkRegistry::detect_network("4111111111111"), Some("Visa".to_string()));
    assert_eq!(CardNetworkRegistry::detect_network("4111111111111111111"), Some("Visa".to_string()));
}

#[test]
fn test_detect_mastercard() {
    assert_eq!(CardNetworkRegistry::detect_network("5555555555554444"), Some("Mastercard".to_string()));
    assert_eq!(CardNetworkRegistry::detect_network("2221000000000000"), Some("Mastercard".to_string()));
}

#[test]
fn test_detect_amex() {
    assert_eq!(CardNetworkRegistry::detect_network("378282246310005"), Some("American Express".to_string()));
    assert_eq!(CardNetworkRegistry::detect_network("371449635398431"), Some("American Express".to_string()));
}

#[test]
fn test_detect_invalid() {
    assert_eq!(CardNetworkRegistry::detect_network("1234567890123456"), None);
}

#[test]
fn detect_range_exceptions() {
    assert_eq!(CardNetworkRegistry::detect_network("2720999999999999"), Some("Mastercard".to_string()));
    assert_eq!(CardNetworkRegistry::detect_network("2721000000000000"), None);
    assert_eq!(CardNetworkRegistry::detect_network("222100000000000"), None);
    assert_eq!(CardNetworkRegistry::detect_network("6440000000000000"), Some("Discover".to_string()));
    assert_eq!(CardNetworkRegistry::detect_network("6011000000000000"), Some("Discover".to_string()));
}

#[test]
fn detect_needs_valid_length() {
    assert_eq!(CardNetworkRegistry::detect_network("41111111111111"), None);
    assert_eq!(CardNetworkRegistry::detect_network("36000000000000"), Some("Diners Club".to_string()));
    assert_eq!(CardNetworkRegistry::detect_network("6200000000000000000"), Some("UnionPay".to_string()));
    assert_eq!(CardNetworkRegistry::detect_network(""), None);
}

#[test]
fn lookup_by_identifier() {
    let amex = CardNetworkRegistry::get_network_by_identifier("amex").unwrap();
    assert_eq!(amex.name, "American Express");
    assert_eq!(amex.bins, vec!["34", "37"]);
    assert_eq!(amex.length, vec![15]);
    assert_eq!(amex.cvv_length, 3);
    assert!(CardNetworkRegistry::get_network_by_identifier("random").is_none());
    assert!(CardNetworkRegistry::get_network_by_identifier("VISA").is_none());
}

#[test]
fn catalog_order_and_names() {
    let ids: Vec<&str> = CardNetworkRegistry::get_all_networks().iter().map(|n| n.identifier).collect();
    assert_eq!(ids, vec!["visa", "mastercard", "amex", "discover", "unionpay", "diners"]);
    let names = CardNetworkRegistry::get_network_names();
    assert_eq!(names.len(), 7);
    assert_eq!(names[0], ("random", "Random"));
    assert_eq!(names[6], ("diners", "Diners Club"));
}

#[test]
fn bin_and_length_matching() {
    let discover = CardNetworkRegistry::get_network_by_identifier("discover").unwrap();
    assert!(discover.matches_bin("6011"));
    assert!(discover.matches_bin("649123"));
    assert!(!discover.matches_bin("601"));
    assert!(!discover.matches_bin("643"));
    assert!(discover.is_valid_length(16));
    assert!(!discover.is_valid_length(15));
}
