//! The operations offered to the user interface, as plain functions.

use vstd::prelude::*;
use crate::card_generator::{batch_ok, opt_view, CardData, CreditCardGenerator};
use crate::fake_data::{generate_fake_users, generate_lorem_ipsum, lorem_ok, user_ok, FakeUser};
use crate::networks::{lookup, network_names, CardNetworkRegistry};
use crate::validator::{validate_card_number, validation_of, ValidationResult};

verus! {

/// State shared by the operations: the generator, which holds no data of its own.
pub struct AppState {
    pub generator: CreditCardGenerator,
}

/// The most users one request may ask for.
pub const MAX_USERS: usize = 100;

/// The most paragraphs one request may ask for.
pub const MAX_PARAGRAPHS: usize = 50;

/// The currencies offered, as `(code, name)`.
pub open spec fn currencies() -> Seq<(Seq<char>, Seq<char>)> {
    seq![
        ("USD"@, "United States Dollar"@),
        ("PHP"@, "Philippine Peso"@),
        ("EUR"@, "Euro"@),
        ("JPY"@, "Japanese Yen"@),
        ("GBP"@, "British Pound Sterling"@),
        ("CHF"@, "Swiss Franc"@),
        ("CAD"@, "Canadian Dollar"@),
        ("AUD"@, "Australian Dollar"@),
        ("CNY"@, "Chinese Yuan Renminbi"@),
        ("INR"@, "Indian Rupee"@),
        ("BRL"@, "Brazilian Real"@),
        ("ZAR"@, "South African Rand"@),
        ("RUB"@, "Russian Ruble"@),
        ("SAR"@, "Saudi Riyal"@),
        ("SGD"@, "Singapore Dollar"@),
        ("MXN"@, "Mexican Peso"@),
    ]
}

/// Generates a batch of cards with the shared generator.
pub fn generate_cards(
    state: &AppState,
    network: String,
    quantity: usize,
    exp_month: Option<u32>,
    exp_year: Option<i32>,
    include_cvv: bool,
    include_balance: bool,
    currency: Option<String>,
    bin_code: Option<String>,
) -> (r: Result<Vec<CardData>, String>)
    ensures
        r is Err <==> (network@ != "random"@ && lookup(network@) is None && quantity > 0),
        r matches Err(e) ==> e@ == "不支持的网络类型: "@ + network@,
        r matches Ok(cards) ==> batch_ok(cards@, network@, quantity as nat, opt_view(bin_code),
            exp_month, exp_year, include_cvv, include_balance, opt_view(currency)),
{
    state.generator.generate_card_data(
        network.as_str(),
        quantity,
        exp_month,
        exp_year,
        include_cvv,
        include_balance,
        currency,
        bin_code,
    )
}

/// Validates a card number; validation itself never fails.
pub fn validate_card(card_number: String) -> (r: Result<ValidationResult, String>)
    ensures
        r is Ok,
        r matches Ok(v) ==> validation_of(card_number@, v),
{
    Ok(validate_card_number(card_number.as_str()))
}

/// Up to `MAX_USERS` synthetic users.
pub fn generate_users(count: usize) -> (r: Result<Vec<FakeUser>, String>)
    ensures
        r is Err <==> count > MAX_USERS,
        r matches Err(e) ==> e@ == "最多生成 100 个用户"@,
        r matches Ok(users) ==> users@.len() == count
            && forall|i: int| 0 <= i < users@.len() ==> user_ok(#[trigger] users@[i]),
{
    if count > MAX_USERS {
        return Err(String::from_str("最多生成 100 个用户"));
    }
    Ok(generate_fake_users(count))
}

/// Up to `MAX_PARAGRAPHS` paragraphs of placeholder text.
pub fn generate_lorem(paragraphs: usize) -> (r: Result<String, String>)
    ensures
        r is Err <==> paragraphs > MAX_PARAGRAPHS,
        r matches Err(e) ==> e@ == "最多生成 50 段"@,
        r matches Ok(t) ==> lorem_ok(t@, paragraphs as nat),
{
    if paragraphs > MAX_PARAGRAPHS {
        return Err(String::from_str("最多生成 50 段"));
    }
    Ok(generate_lorem_ipsum(paragraphs))
}

/// The currencies offered, as `(code, name)`.
pub fn get_currencies() -> (r: Vec<(String, String)>)
    ensures
        r@.len() == currencies().len(),
        forall|i: int| 0 <= i < r@.len() ==> ((#[trigger] r@[i]).0@, r@[i].1@) == currencies()[i],
{
    let table = vec![
        ("USD", "United States Dollar"),
        ("PHP", "Philippine Peso"),
        ("EUR", "Euro"),
        ("JPY", "Japanese Yen"),
        ("GBP", "British Pound Sterling"),
        ("CHF", "Swiss Franc"),
        ("CAD", "Canadian Dollar"),
        ("AUD", "Australian Dollar"),
        ("CNY", "Chinese Yuan Renminbi"),
        ("INR", "Indian Rupee"),
        ("BRL", "Brazilian Real"),
        ("ZAR", "South African Rand"),
        ("RUB", "Russian Ruble"),
        ("SAR", "Saudi Riyal"),
        ("SGD", "Singapore Dollar"),
        ("MXN", "Mexican Peso"),
    ];
    assert(forall|i: int| 0 <= i < table@.len() ==> ((#[trigger] table@[i]).0@, table@[i].1@) == currencies()[i]);
    owned_pairs(&table)
}

/// The selectable networks, as `(identifier, name)`, `random` first.
pub fn get_networks() -> (r: Vec<(String, String)>)
    ensures
        r@.len() == network_names().len(),
        forall|i: int| 0 <= i < r@.len() ==> ((#[trigger] r@[i]).0@, r@[i].1@) == network_names()[i],
{
    owned_pairs(&CardNetworkRegistry::get_network_names())
}

/// Owned copies of pairs of strings.
fn owned_pairs(pairs: &Vec<(&'static str, &'static str)>) -> (r: Vec<(String, String)>)
    ensures
        r@.len() == pairs@.len(),
        forall|i: int| 0 <= i < r@.len() ==> ((#[trigger] r@[i]).0@, r@[i].1@) == (pairs@[i].0@, pairs@[i].1@),
{
    let mut r: Vec<(String, String)> = Vec::new();
    let mut i: usize = 0;
    while i < pairs.len()
        invariant
            i <= pairs@.len(),
            r@.len() == i,
            forall|k: int| 0 <= k < i ==> ((#[trigger] r@[k]).0@, r@[k].1@) == (pairs@[k].0@, pairs@[k].1@),
        decreases pairs@.len() - i,
    {
        let (a, b) = pairs[i];
        r.push((String::from_str(a), String::from_str(b)));
        i = i + 1;
    }
    r
}

} // verus!
