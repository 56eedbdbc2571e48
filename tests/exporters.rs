use cardgen::card_generator::CardData;
use cardgen::exporters::{
    csv_fields, csv_header, export_to_card, export_to_csv, export_to_pipe, export_to_sql, export_to_xml, xml_events,
};

fn create_test_card() -> CardData {
    CardData {
        number: "4111111111111111".to_string(),
        network: "Visa".to_string(),
        exp_month: "12".to_string(),
        exp_year: "2025".to_string(),
        expiry: "12/25".to_string(),
        cvv: Some("123".to_string()),
        balance: Some(100050),
        currency: Some("USD".to_string()),
        bin: "411111".to_string(),
    }
}

fn bare_card() -> CardData {
    CardData {
        number: "378282246310005".to_string(),
        network: "American Express".to_string(),
        exp_month: "01".to_string(),
        exp_year: "2030".to_string(),
        expiry: "01/30".to_string(),
        cvv: None,
        balance: None,
        currency: None,
        bin: "378282".to_string(),
    }
}

#[test]
fn test_export_to_pipe() {
    let cards = vec![create_test_card()];
    let result = export_to_pipe(&cards);
    assert!(result.contains("4111111111111111|12/25|123"));
}

#[test]
fn pipe_lines_exact() {
    let cards = vec![create_test_card(), bare_card()];
    assert_eq!(export_to_pipe(&cards), "4111111111111111|12/25|123\n378282246310005|01/30");
    assert_eq!(export_to_pipe(&[]), "");
}

#[test]
fn sql_statements() {
    let cards = vec![create_test_card(), bare_card()];
    let sql = export_to_sql(&cards, "test_cards");
    let lines: Vec<&str> = sql.split('\n').collect();
    assert_eq!(lines.len(), 14);
    assert_eq!(lines[0], "CREATE TABLE IF NOT EXISTS test_cards (");
    assert_eq!(lines[10], ");");
    assert_eq!(lines[11], "");
    assert_eq!(
        lines[12],
        "INSERT INTO test_cards (number, network, exp_month, exp_year, expiry, cvv, balance, currency, bin) VALUES ('4111111111111111', 'Visa', '12', '2025', '12/25', '123', 1000.50, 'USD', '411111');"
    );
    assert_eq!(
        lines[13],
        "INSERT INTO test_cards (number, network, exp_month, exp_year, expiry, cvv, balance, currency, bin) VALUES ('378282246310005', 'American Express', '01', '2030', '01/30', NULL, NULL, NULL, '378282');"
    );
}

#[test]
fn card_blocks() {
    let cards = vec![create_test_card(), bare_card()];
    let text = export_to_card(&cards);
    let rule = "─".repeat(40);
    let expected = format!(
        "🔖 卡片 #1\n💳 卡号: 4111111111111111\n🌐 网络: Visa\n📅 过期: 12/25\n🔒 CVV: 123\n💰 余额: 1000.50 USD\n{}\n🔖 卡片 #2\n💳 卡号: 378282246310005\n🌐 网络: American Express\n📅 过期: 01/30\n{}",
        rule, rule
    );
    assert_eq!(text, expected);
}

#[test]
fn test_export_to_csv() {
    let cards = vec![create_test_card()];
    let result = export_to_csv(&cards);
    assert!(result.is_ok());
    assert!(result.unwrap().contains("number,network"));
}

#[test]
fn csv_exact_lines() {
    let cards = vec![create_test_card(), bare_card()];
    assert_eq!(
        export_to_csv(&cards).unwrap(),
        "number,network,exp_month,exp_year,expiry,cvv,balance,currency,bin\n\
         4111111111111111,Visa,12,2025,12/25,123,1000.50,USD,411111\n\
         378282246310005,American Express,01,2030,01/30,,,,378282\n"
    );
    assert_eq!(export_to_csv(&[]).unwrap(), "number,network,exp_month,exp_year,expiry,cvv,balance,currency,bin\n");
}

#[test]
fn csv_quotes_fields_with_commas() {
    let mut card = bare_card();
    card.network = "Diners, Club".to_string();
    let text = export_to_csv(&[card]).unwrap();
    assert!(text.contains(",\"Diners, Club\","));
}

#[test]
fn csv_field_layout() {
    assert_eq!(csv_header().len(), 9);
    let fields = csv_fields(&bare_card());
    assert_eq!(fields, vec!["378282246310005", "American Express", "01", "2030", "01/30", "", "", "", "378282"]);
    let full = csv_fields(&create_test_card());
    assert_eq!(full[6], "1000.50");
}

#[test]
fn xml_document() {
    let xml = export_to_xml(&[create_test_card(), bare_card()]).unwrap();
    let expected = "<?xml version=\"1.0\" encoding=\"UTF-8\"?>\n<cards>\n  <card>\n    <number>4111111111111111</number>\n    <network>Visa</network>\n    <exp_month>12</exp_month>\n    <exp_year>2025</exp_year>\n    <expiry>12/25</expiry>\n    <cvv>123</cvv>\n    <balance>1000.50</balance>\n    <currency>USD</currency>\n    <bin>411111</bin>\n  </card>\n  <card>\n    <number>378282246310005</number>\n    <network>American Express</network>\n    <exp_month>01</exp_month>\n    <exp_year>2030</exp_year>\n    <expiry>01/30</expiry>\n    <bin>378282</bin>\n  </card>\n</cards>";
    assert_eq!(xml, expected);
}

#[test]
fn xml_escapes_text() {
    let mut card = bare_card();
    card.network = "A&B".to_string();
    let xml = export_to_xml(&[card]).unwrap();
    assert!(xml.contains("<network>A&amp;B</network>"));
    assert_eq!(xml_events(&[]).len(), 3);
    assert_eq!(xml_events(&[bare_card()]).len(), 3 + 2 + 6 * 3);
}
