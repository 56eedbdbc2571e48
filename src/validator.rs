//! Validation and classification of caller-supplied card numbers.

use vstd::prelude::*;
use crate::card_generator::CreditCardGenerator;
use crate::luhn::luhn_valid;
use crate::networks::{detect, CardNetworkRegistry};
use crate::text::{char_is_digit, is_digit, push_char};

verus! {

/// The outcome of validating a card number.
#[derive(Debug, Clone)]
pub struct ValidationResult {
    pub valid: bool,
    pub luhn_valid: bool,
    pub network: Option<String>,
    pub length: usize,
    pub reason: String,
}

/// The digit characters of `s`, in order.
pub open spec fn strip_non_digits(s: Seq<char>) -> Seq<char>
    decreases s.len(),
{
    if s.len() == 0 {
        seq![]
    } else if is_digit(s.last()) {
        strip_non_digits(s.drop_last()).push(s.last())
    } else {
        strip_non_digits(s.drop_last())
    }
}

/// Whether a number of `len` digits has an acceptable length.
pub open spec fn length_ok(len: nat) -> bool {
    13 <= len <= 19
}

/// The digit characters of `s`.
fn strip(s: &str) -> (r: String)
    ensures
        r@ == strip_non_digits(s@),
{
    let n = s.unicode_len();
    let mut r = String::new();
    let mut i: usize = 0;
    while i < n
        invariant
            n == s@.len(),
            i <= n,
            r@ == strip_non_digits(s@.subrange(0, i as int)),
        decreases n - i,
    {
        let c = s.get_char(i);
        assert(s@.subrange(0, i + 1).drop_last() =~= s@.subrange(0, i as int));
        if char_is_digit(c) {
            push_char(&mut r, c);
        }
        i = i + 1;
    }
    assert(s@.subrange(0, n as int) =~= s@);
    r
}

/// Whether `r` is the validation result of `input`.
pub open spec fn validation_of(input: Seq<char>, r: ValidationResult) -> bool {
    &&& (r.length == strip_non_digits(input).len())
    &&& (!length_ok(r.length as nat) ==> {
        &&& !r.valid
        &&& !r.luhn_valid
        &&& r.network is None
        &&& r.reason@ == "卡号长度无效"@
    })
    &&& (length_ok(r.length as nat) ==> {
        let clean = strip_non_digits(input);
        &&& r.luhn_valid == luhn_valid(clean)
        &&& match r.network {
            Some(s) => detect(clean) == Some(s@),
            None => detect(clean) is None,
        }
        &&& r.valid == (luhn_valid(clean) && detect(clean) is Some)
        &&& r.reason@ == (if r.valid {
            "有效"@
        } else if !r.luhn_valid {
            "Luhn 校验失败"@
        } else {
            "无法识别卡网络"@
        })
    })
}

/// Validates `card_number`: non-digits are dropped, then the length, the
/// Luhn check and the network are examined in that order.
pub fn validate_card_number(card_number: &str) -> (r: ValidationResult)
    ensures
        validation_of(card_number@, r),
{
    let clean_number = strip(card_number);
    let length = clean_number.as_str().unicode_len();
    if length < 13 || length > 19 {
        return ValidationResult {
            valid: false,
            luhn_valid: false,
            network: None,
            length,
            reason: String::from_str("卡号长度无效"),
        };
    }
    let luhn_valid = CreditCardGenerator::is_luhn_valid(clean_number.as_str());
    let network = CardNetworkRegistry::detect_network(clean_number.as_str());
    let valid = luhn_valid && network.is_some();
    let reason = if valid {
        String::from_str("有效")
    } else if !luhn_valid {
        String::from_str("Luhn 校验失败")
    } else {
        String::from_str("无法识别卡网络")
    };
    ValidationResult { valid, luhn_valid, network, length, reason }
}

} // verus!
