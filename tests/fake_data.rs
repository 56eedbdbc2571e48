use cardgen::commands::{generate_lorem, generate_users, get_currencies, get_networks, validate_card};
use cardgen::fake_data::{generate_fake_users, generate_lorem_ipsum, romanize};

#[test]
fn test_generate_fake_users() {
    let users = generate_fake_users(5);
    assert_eq!(users.len(), 5);

    for user in users {
        assert!(!user.name.is_empty());
        assert!(user.email.contains('@'));
        assert!(user.phone.starts_with('1'));
        assert!(user.phone.len() == 11);
        assert!(user.address.contains('市'));
    }
}

#[test]
fn test_generate_lorem_ipsum() {
    let text = generate_lorem_ipsum(3);
    assert!(!text.is_empty());

    let paragraphs: Vec<&str> = text.split("\n\n").collect();
    assert_eq!(paragraphs.len(), 3);
}

#[test]
fn test_romanize() {
    assert_eq!(romanize("张伟"), "zhangwei");
    assert_eq!(romanize("李娜"), "lina");
}

#[test]
fn romanize_unknown_characters() {
    assert_eq!(romanize("张A浩"), "zhangxhao");
    assert_eq!(romanize(""), "");
}

#[test]
fn user_email_starts_with_romanized_name() {
    for user in generate_fake_users(10) {
        assert_eq!(user.name.chars().count(), 3);
        assert!(user.email.starts_with(&romanize(&user.name)));
        assert!(user.address.ends_with('号'));
    }
}

#[test]
fn lorem_words_lowercased_after_first() {
    let text = generate_lorem_ipsum(4);
    for p in text.split("\n\n") {
        assert!(p.ends_with('.'));
        let words: Vec<&str> = p.trim_end_matches('.').split(' ').collect();
        assert!(words.len() >= 50 && words.len() <= 99);
        for w in &words[1..] {
            assert_eq!(*w, w.to_lowercase());
        }
    }
    assert_eq!(generate_lorem_ipsum(0), "");
}

#[test]
fn request_caps() {
    assert_eq!(generate_users(100).map(|u| u.len()), Ok(100));
    assert_eq!(generate_users(101).err(), Some("最多生成 100 个用户".to_string()));
    assert!(generate_lorem(50).is_ok());
    assert_eq!(generate_lorem(51).err(), Some("最多生成 50 段".to_string()));
}

#[test]
fn fixed_lists() {
    let currencies = get_currencies();
    assert_eq!(currencies.len(), 16);
    assert_eq!(currencies[0], ("USD".to_string(), "United States Dollar".to_string()));
    assert_eq!(currencies[15], ("MXN".to_string(), "Mexican Peso".to_string()));
    let networks = get_networks();
    assert_eq!(networks[0], ("random".to_string(), "Random".to_string()));
    assert_eq!(networks.len(), 7);
}

#[test]
fn validate_command_wraps_result() {
    let r = validate_card("378282246310005".to_string()).unwrap();
    assert!(r.valid);
    assert_eq!(r.network, Some("American Express".to_string()));
}
