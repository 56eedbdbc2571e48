use cardgen::card_generator::{CardData, CreditCardGenerator, MAX_BALANCE_CENTS, MIN_BALANCE_CENTS};
use cardgen::networks::CardNetworkRegistry;

fn all_digits(s: &str) -> bool {
    s.chars().all(|c| c.is_ascii_digit())
}

#[test]
fn test_generate_card() {
    let generator = CreditCardGenerator::new();
    let result = generator.generate_card_number("visa", None);
    assert!(result.is_ok());

    let card_num = result.unwrap();
    assert!(card_num.starts_with('4'));
    assert!(CreditCardGenerator::is_luhn_valid(&card_num));
}

#[test]
fn test_bin_with_placeholder() {
    let generator = CreditCardGenerator::new();
    let result = generator.generate_card_number("visa", Some("4532xxxxxxxxxxxxxx"));
    assert!(result.is_ok());

    let card_num = result.unwrap();
    assert!(card_num.starts_with("4532"));
    assert!(CreditCardGenerator::is_luhn_valid(&card_num));
}

#[test]
fn placeholder_bin_sets_length() {
    let generator = CreditCardGenerator::new();
    for _ in 0..20 {
        let n = generator.generate_card_number("visa", Some("4532xxxxxxxxxxxxxx")).unwrap();
        assert_eq!(n.len(), "4532xxxxxxxxxxxxxx".len());
        assert!(n.starts_with("4532"));
        assert!(all_digits(&n));
        assert!(CreditCardGenerator::is_luhn_valid(&n));
    }
    let short = generator.generate_card_number("amex", Some("37XX")).unwrap();
    assert_eq!(short.len(), 4);
    assert!(short.starts_with("37"));
}

#[test]
fn unrequested_bin_follows_network_rules() {
    let generator = CreditCardGenerator::new();
    for id in ["visa", "mastercard", "amex", "discover", "unionpay", "diners"] {
        let net = CardNetworkRegistry::get_network_by_identifier(id).unwrap();
        for _ in 0..20 {
            let n = generator.generate_card_number(id, None).unwrap();
            assert!(net.length.contains(&n.len()));
            assert!(net.bins.iter().any(|b| n.starts_with(b)));
            assert!(all_digits(&n));
            assert!(CreditCardGenerator::is_luhn_valid(&n));
            assert_eq!(CardNetworkRegistry::detect_network(&n), Some(net.name.to_string()));
        }
    }
}

#[test]
fn digit_bin_uses_first_length() {
    let generator = CreditCardGenerator::new();
    let n = generator.generate_card_number("visa", Some("453201")).unwrap();
    assert_eq!(n.len(), 13);
    assert!(n.starts_with("453201"));
    assert!(CreditCardGenerator::is_luhn_valid(&n));
    let long = generator.generate_card_number("amex", Some("3712345678901234567")).unwrap();
    assert_eq!(long.len(), 15);
    assert!(long.starts_with("37123456789012"));
    assert!(CreditCardGenerator::is_luhn_valid(&long));
}

#[test]
fn unknown_network_is_refused() {
    let generator = CreditCardGenerator::new();
    assert_eq!(
        generator.generate_card_number("jcb", None),
        Err("不支持的网络类型: jcb".to_string())
    );
    assert_eq!(generator.generate_cvv("random"), Err("不支持的网络类型: random".to_string()));
}

#[test]
fn finish_number_exact() {
    assert_eq!(CreditCardGenerator::finish_number("411111", 16, "111111111"), "4111111111111111");
    assert_eq!(CreditCardGenerator::finish_number("7992739871", 11, ""), "79927398713");
    assert_eq!(CreditCardGenerator::finish_number("79927398719999", 11, "55"), "79927398713");
    assert_eq!(CreditCardGenerator::finish_number("", 1, ""), "0");
}

#[test]
fn cvv_has_network_length() {
    let generator = CreditCardGenerator::new();
    let cvv = generator.generate_cvv("amex").unwrap();
    assert_eq!(cvv.len(), 3);
    assert!(all_digits(&cvv));
}

#[test]
fn expiry_keeps_future_request() {
    let generator = CreditCardGenerator::new();
    let (m, y) = generator.generate_expiry(Some(3), Some(9999));
    assert_eq!(m, "03");
    assert_eq!(y, "9999");
    let (m, y) = generator.generate_expiry(Some(11), Some(10000));
    assert_eq!(m, "11");
    assert_eq!(y, "10000");
}

#[test]
fn expiry_replaces_past_request() {
    let generator = CreditCardGenerator::new();
    for _ in 0..20 {
        let (m, y) = generator.generate_expiry(Some(1), Some(2000));
        let month: u32 = m.parse().unwrap();
        let year: i32 = y.parse().unwrap();
        assert_eq!(m.len(), 2);
        assert!((1..=12).contains(&month));
        assert!(year > 2000);
    }
}

#[test]
fn expiry_keeps_requested_year() {
    let generator = CreditCardGenerator::new();
    let (m, y) = generator.generate_expiry(None, Some(1999));
    assert_eq!(y, "1999");
    let month: u32 = m.parse().unwrap();
    assert!((1..=12).contains(&month));
    let (m, _) = generator.generate_expiry(Some(12), None);
    assert_eq!(m, "12");
}

#[test]
fn balance_in_range() {
    let generator = CreditCardGenerator::new();
    assert_eq!(generator.generate_balance(500, 500), 500);
    let b = generator.generate_balance(MIN_BALANCE_CENTS, MAX_BALANCE_CENTS);
    assert!((MIN_BALANCE_CENTS..=MAX_BALANCE_CENTS).contains(&b));
}

#[test]
fn assemble_card_derives_expiry_and_bin() {
    let card: CardData = CreditCardGenerator::assemble_card(
        "4111111111111111".to_string(),
        "Visa".to_string(),
        "07".to_string(),
        "2031".to_string(),
        None,
        Some(100050),
        Some("EUR".to_string()),
    );
    assert_eq!(card.expiry, "07/31");
    assert_eq!(card.bin, "411111");
    assert_eq!(card.balance, Some(100050));
}

#[test]
fn batch_of_cards() {
    let generator = CreditCardGenerator::new();
    let cards = generator
        .generate_card_data("mastercard", 5, Some(6), Some(9000), true, true, Some("USD".to_string()), None)
        .unwrap();
    assert_eq!(cards.len(), 5);
    for c in &cards {
        assert_eq!(c.network, "Mastercard");
        assert_eq!(c.number.len(), 16);
        assert!(CreditCardGenerator::is_luhn_valid(&c.number));
        assert_eq!(c.expiry, "06/00");
        assert_eq!(c.exp_year, "9000");
        assert_eq!(c.bin, c.number[..6]);
        assert_eq!(c.cvv.as_ref().map(|v| v.len()), Some(3));
        assert!(c.balance.is_some());
        assert_eq!(c.currency, Some("USD".to_string()));
    }
}

#[test]
fn batch_without_options() {
    let generator = CreditCardGenerator::new();
    let cards = generator
        .generate_card_data("random", 10, None, None, false, false, Some("USD".to_string()), None)
        .unwrap();
    assert_eq!(cards.len(), 10);
    for c in &cards {
        assert!(c.cvv.is_none());
        assert!(c.balance.is_none());
        assert!(c.currency.is_none());
        assert_eq!(CardNetworkRegistry::detect_network(&c.number), Some(c.network.clone()));
    }
}

#[test]
fn batch_fails_on_unknown_network() {
    let generator = CreditCardGenerator::new();
    let r = generator.generate_card_data("nope", 2, None, None, true, false, None, None);
    assert_eq!(r.err(), Some("不支持的网络类型: nope".to_string()));
    let empty = generator.generate_card_data("nope", 0, None, None, true, false, None, None);
    assert_eq!(empty.map(|v| v.len()), Ok(0));
}

#[test]
fn generator_lists_identifiers() {
    let generator = CreditCardGenerator::default();
    assert_eq!(generator.get_networks(), vec!["visa", "mastercard", "amex", "discover", "unionpay", "diners"]);
}

#[test]
fn expiry_values_follow_the_date() {
    assert_eq!(CreditCardGenerator::expiry_values(Some(3), Some(2030), 2025, 6), (3, 2030));
    assert_eq!(CreditCardGenerator::expiry_values(Some(6), Some(2025), 2025, 6), (6, 2025));
    for _ in 0..30 {
        let (m, y) = CreditCardGenerator::expiry_values(Some(5), Some(2025), 2025, 6);
        assert!((2025..=2033).contains(&y));
        if y == 2025 { assert!((6..=12).contains(&m)); } else { assert!((1..=12).contains(&m)); }
        let (m, y) = CreditCardGenerator::expiry_values(Some(4), None, 2025, 6);
        assert!((2025..=2033).contains(&y));
        if y == 2025 { assert!((6..=12).contains(&m)); } else { assert_eq!(m, 4); }
        let (m, y) = CreditCardGenerator::expiry_values(None, Some(2025), 2025, 11);
        assert_eq!(y, 2025);
        assert!((11..=12).contains(&m));
        let (m, y) = CreditCardGenerator::fresh_values(2025, 12);
        assert!((2025..=2033).contains(&y));
        if y == 2025 { assert_eq!(m, 12); } else { assert!((1..=12).contains(&m)); }
    }
}
